//! Text measurement: display widths over grapheme clusters, line
//! dimensions, wrapping, truncation and padding.

use vstd::prelude::*;
use unicode_segmentation::UnicodeSegmentation;
use unicode_width::UnicodeWidthStr;
use crate::text::{chars_of, lines_of, push_char, push_repeated, push_str, repeated, split_lines, string_of};

verus! {

/// The extended grapheme clusters of a string, in order, as
/// unicode-segmentation splits it.
pub uninterp spec fn grapheme_clusters(s: Seq<char>) -> Seq<Seq<char>>;

/// The display width of a string as unicode-width's `UnicodeWidthStr::width`
/// measures it.
pub uninterp spec fn str_width_of(s: Seq<char>) -> nat;

/// The extended grapheme clusters of `s` (unicode-segmentation's
/// `graphemes(true)`), each as its own string. Besides naming the result,
/// the contract states what the crate's iterator shows: it yields
/// consecutive non-empty slices of `s` from its start to its end, so the
/// clusters are non-empty and together make up `s`. Where the boundaries
/// fall is left unsaid.
#[verifier::external_body]
fn graphemes_of(s: &str) -> (gs: Vec<String>)
    ensures
        gs@.len() == grapheme_clusters(s@).len(),
        forall|i: int| 0 <= i < gs@.len() ==> #[trigger] gs@[i]@ == grapheme_clusters(s@)[i],
        forall|i: int| 0 <= i < gs@.len() ==> #[trigger] gs@[i]@.len() > 0,
        concat(gs@.map_values(|g: String| g@)) == s@,
{
    s.graphemes(true).map(|g| g.to_string()).collect()
}

/// The display width of `s` (unicode-width's `UnicodeWidthStr::width`).
/// Besides naming the result, the contract states what the crate's source
/// fixes outright: a string of printable ASCII characters (space to `~`)
/// is as wide as it is long, each of them taking one column. The width of
/// any other string is left unsaid.
#[verifier::external_body]
fn str_width(s: &str) -> (w: usize)
    ensures
        w as nat == str_width_of(s@),
        printable_ascii(s@) ==> w == s@.len(),
{
    UnicodeWidthStr::width(s)
}

/// The display widths of the clusters.
pub open spec fn widths(gs: Seq<Seq<char>>) -> Seq<nat> {
    gs.map_values(|g: Seq<char>| str_width_of(g))
}

/// The sum of a sequence of widths.
pub open spec fn total(ws: Seq<nat>) -> nat
    decreases ws.len(),
{
    if ws.len() == 0 {
        0
    } else {
        total(ws.drop_last()) + ws.last()
    }
}

/// The display width of a text: the sum of the widths of its grapheme clusters.
pub open spec fn text_width(s: Seq<char>) -> nat {
    total(widths(grapheme_clusters(s)))
}

/// How many widths from the front fit into `budget`, taken greedily until
/// the first that does not fit.
pub open spec fn fit_count(ws: Seq<nat>, budget: int) -> nat
    decreases ws.len(),
{
    if ws.len() == 0 {
        0
    } else if ws[0] > budget {
        0
    } else {
        1 + fit_count(ws.drop_first(), budget - ws[0])
    }
}

/// The concatenation of the clusters.
pub open spec fn concat(gs: Seq<Seq<char>>) -> Seq<char> {
    gs.flatten()
}

/// Whether every character is printable ASCII (space to `~`).
pub open spec fn printable_ascii(s: Seq<char>) -> bool {
    forall|i: int| 0 <= i < s.len() ==> ' ' <= #[trigger] s[i] <= '~'
}

/// Clusters of printable ASCII that are as wide as they are long add up to
/// a text as wide as it is long.
proof fn lemma_printable_width(gs: Seq<Seq<char>>)
    requires
        printable_ascii(concat(gs)),
        forall|i: int| 0 <= i < gs.len() && printable_ascii(#[trigger] gs[i]) ==> str_width_of(gs[i]) == gs[i].len(),
    ensures
        total(widths(gs)) == concat(gs).len(),
    decreases gs.len(),
{
    if gs.len() > 0 {
        let r = gs.drop_last();
        let g = gs.last();
        assert(gs =~= r.push(g));
        r.lemma_flatten_push(g);
        assert(concat(gs) == concat(r) + g);
        assert(printable_ascii(concat(r))) by {
            assert forall|i: int| 0 <= i < concat(r).len() implies ' ' <= #[trigger] concat(r)[i] <= '~' by {
                assert(concat(gs)[i] == concat(r)[i]);
            }
        }
        assert(printable_ascii(g)) by {
            assert forall|i: int| 0 <= i < g.len() implies ' ' <= #[trigger] g[i] <= '~' by {
                assert(concat(gs)[concat(r).len() + i] == g[i]);
            }
        }
        assert(gs[gs.len() - 1] == g);
        assert forall|i: int| 0 <= i < r.len() && printable_ascii(#[trigger] r[i]) implies str_width_of(r[i]) == r[i].len() by {
            assert(r[i] == gs[i]);
        }
        lemma_printable_width(r);
        assert(widths(gs).drop_last() =~= widths(r));
    }
}

/// The grapheme clusters of a text as character vectors, with their widths.
fn clusters(text: &str) -> (r: (Vec<Vec<char>>, Vec<usize>))
    ensures
        concat(grapheme_clusters(text@)) == text@,
        r.0@.len() == grapheme_clusters(text@).len(),
        r.1@.len() == grapheme_clusters(text@).len(),
        forall|i: int| 0 <= i < r.0@.len() ==> #[trigger] r.0@[i]@ == grapheme_clusters(text@)[i],
        forall|i: int| 0 <= i < r.1@.len() ==> #[trigger] r.1@[i] as nat == widths(
            grapheme_clusters(text@),
        )[i],
        forall|i: int|
            0 <= i < grapheme_clusters(text@).len() && printable_ascii(#[trigger] grapheme_clusters(text@)[i])
                ==> str_width_of(grapheme_clusters(text@)[i]) == grapheme_clusters(text@)[i].len(),
{
    let gs = graphemes_of(text);
    assert(gs@.map_values(|g: String| g@) =~= grapheme_clusters(text@));
    let mut cs: Vec<Vec<char>> = Vec::new();
    let mut ws: Vec<usize> = Vec::new();
    let mut i: usize = 0;
    while i < gs.len()
        invariant
            i <= gs@.len(),
            gs@.len() == grapheme_clusters(text@).len(),
            forall|k: int| 0 <= k < gs@.len() ==> #[trigger] gs@[k]@ == grapheme_clusters(text@)[k],
            cs@.len() == i,
            ws@.len() == i,
            forall|k: int| 0 <= k < i ==> #[trigger] cs@[k]@ == grapheme_clusters(text@)[k],
            forall|k: int| 0 <= k < i ==> #[trigger] ws@[k] as nat == widths(grapheme_clusters(text@))[k],
            forall|k: int|
                0 <= k < i && printable_ascii(#[trigger] grapheme_clusters(text@)[k]) ==> str_width_of(
                    grapheme_clusters(text@)[k],
                ) == grapheme_clusters(text@)[k].len(),
        decreases gs@.len() - i,
    {
        cs.push(chars_of(gs[i].as_str()));
        ws.push(str_width(gs[i].as_str()));
        i = i + 1;
    }
    (cs, ws)
}

/// The view of the cluster vectors.
pub open spec fn views(cs: Seq<Vec<char>>) -> Seq<Seq<char>> {
    cs.map_values(|c: Vec<char>| c@)
}

/// The widths as naturals.
pub open spec fn nats(ws: Seq<usize>) -> Seq<nat> {
    ws.map_values(|w: usize| w as nat)
}

/// Appends the clusters `cs[from..to]` to `out`.
fn push_clusters(out: &mut String, cs: &Vec<Vec<char>>, from: usize, to: usize)
    requires
        from <= to <= cs@.len(),
    ensures
        final(out)@ == old(out)@ + concat(views(cs@).subrange(from as int, to as int)),
{
    let ghost vs = views(cs@);
    let mut i: usize = from;
    while i < to
        invariant
            from <= i <= to <= cs@.len(),
            vs == views(cs@),
            out@ == old(out)@ + concat(vs.subrange(from as int, i as int)),
        decreases to - i,
    {
        crate::text::push_chars(out, &cs[i], 0, cs[i].len());
        proof {
            assert(cs@[i as int]@.subrange(0, cs@[i as int]@.len() as int) =~= vs[i as int]);
            assert(vs.subrange(from as int, i + 1) =~= vs.subrange(from as int, i as int).push(
                vs[i as int],
            ));
            vs.subrange(from as int, i as int).lemma_flatten_push(vs[i as int]);
        }
        i = i + 1;
    }
}

/// Greedy fit from the front: how many of the widths `ws[from..]` fit into `budget`.
fn fit_front(ws: &Vec<usize>, budget: usize) -> (n: usize)
    ensures
        n == fit_count(nats(ws@), budget as int),
        n <= ws@.len(),
{
    let ghost all = nats(ws@);
    let mut cur: usize = 0;
    let mut i: usize = 0;
    assert(all.skip(0) =~= all);
    while i < ws.len()
        invariant
            i <= ws@.len(),
            all == nats(ws@),
            cur <= budget,
            fit_count(all, budget as int) == i + fit_count(all.skip(i as int), budget - cur),
        decreases ws@.len() - i,
    {
        let w = ws[i];
        assert(all.skip(i as int)[0] == w as nat);
        if w > budget - cur {
            return i;
        }
        assert(all.skip(i as int).drop_first() =~= all.skip(i + 1));
        cur = cur + w;
        i = i + 1;
    }
    assert(all.skip(i as int) =~= Seq::<nat>::empty());
    i
}

/// Greedy fit from the back: how many of the last widths fit into `budget`.
fn fit_back(ws: &Vec<usize>, budget: usize) -> (n: usize)
    ensures
        n == fit_count(nats(ws@).reverse(), budget as int),
        n <= ws@.len(),
{
    let ghost all = nats(ws@).reverse();
    let mut cur: usize = 0;
    let mut i: usize = 0;
    assert(all.skip(0) =~= all);
    while i < ws.len()
        invariant
            i <= ws@.len(),
            all == nats(ws@).reverse(),
            cur <= budget,
            fit_count(all, budget as int) == i + fit_count(all.skip(i as int), budget - cur),
        decreases ws@.len() - i,
    {
        let w = ws[ws.len() - 1 - i];
        assert(all.skip(i as int)[0] == w as nat);
        if w > budget - cur {
            return i;
        }
        assert(all.skip(i as int).drop_first() =~= all.skip(i + 1));
        cur = cur + w;
        i = i + 1;
    }
    assert(all.skip(i as int) =~= Seq::<nat>::empty());
    i
}

/// The sum of the widths, saturating at `usize::MAX`.
fn sum_widths(ws: &Vec<usize>) -> (s: usize)
    ensures
        s == (if total(nats(ws@)) <= usize::MAX {
            total(nats(ws@))
        } else {
            usize::MAX as nat
        }),
{
    let mut acc: usize = 0;
    let mut i: usize = 0;
    while i < ws.len()
        invariant
            i <= ws@.len(),
            acc == (if total(nats(ws@.take(i as int))) <= usize::MAX {
                total(nats(ws@.take(i as int)))
            } else {
                usize::MAX as nat
            }),
        decreases ws@.len() - i,
    {
        assert(nats(ws@.take(i + 1)).drop_last() =~= nats(ws@.take(i as int)));
        acc = acc.saturating_add(ws[i]);
        i = i + 1;
    }
    assert(ws@.take(ws@.len() as int) =~= ws@);
    acc
}

/// Partial sums only grow.
proof fn lemma_total_prefix_monotone(ws: Seq<nat>, i: int, j: int)
    requires
        0 <= i <= j <= ws.len(),
    ensures
        total(ws.take(i)) <= total(ws.take(j)),
    decreases j - i,
{
    if i < j {
        assert(ws.take(j).drop_last() =~= ws.take(j - 1));
        lemma_total_prefix_monotone(ws, i, j - 1);
    }
}

/// Whether the sum of the widths is at most `limit`.
fn fits_within(ws: &Vec<usize>, limit: usize) -> (r: bool)
    ensures
        r == (total(nats(ws@)) <= limit),
{
    let ghost all = nats(ws@);
    let mut acc: usize = 0;
    let mut i: usize = 0;
    while i < ws.len()
        invariant
            i <= ws@.len(),
            all == nats(ws@),
            acc <= limit,
            acc == total(all.take(i as int)),
        decreases ws@.len() - i,
    {
        assert(all.take(i + 1).drop_last() =~= all.take(i as int));
        if ws[i] > limit - acc {
            proof {
                lemma_total_prefix_monotone(all, i + 1, all.len() as int);
                assert(all.take(all.len() as int) =~= all);
            }
            return false;
        }
        acc = acc + ws[i];
        i = i + 1;
    }
    assert(all.take(all.len() as int) =~= all);
    true
}

/// Measure the display width of text as the sum of the widths of its
/// grapheme clusters (saturating at `usize::MAX`).
pub fn measure_text_width(text: &str) -> (w: usize)
    ensures
        printable_ascii(text@) ==> text_width(text@) == text@.len(),
        w == (if text_width(text@) <= usize::MAX {
            text_width(text@)
        } else {
            usize::MAX as nat
        }),
{
    let (cs, ws) = clusters(text);
    assert(nats(ws@) =~= widths(grapheme_clusters(text@)));
    proof {
        if printable_ascii(text@) {
            lemma_printable_width(grapheme_clusters(text@));
        }
    }
    sum_widths(&ws)
}

/// The display width of text (the same as `measure_text_width`).
pub fn display_width(text: &str) -> (w: usize)
    ensures
        printable_ascii(text@) ==> text_width(text@) == text@.len(),
        w == (if text_width(text@) <= usize::MAX {
            text_width(text@)
        } else {
            usize::MAX as nat
        }),
{
    measure_text_width(text)
}

/// The widest of the lines' widths (0 without lines).
pub open spec fn widest(lines: Seq<Seq<char>>) -> nat
    decreases lines.len(),
{
    if lines.len() == 0 {
        0
    } else {
        let w = str_width_of(lines.last());
        let rest = widest(lines.drop_last());
        if w > rest {
            w
        } else {
            rest
        }
    }
}

/// Measure text dimensions: the widest line's width and the number of
/// lines (at least 1).
pub fn measure_text(text: &str) -> (r: (usize, usize))
    ensures
        r.0 == widest(lines_of(text@)),
        r.1 == (if lines_of(text@).len() > 1 {
            lines_of(text@).len()
        } else {
            1
        }),
        forall|i: int|
            0 <= i < lines_of(text@).len() && printable_ascii(#[trigger] lines_of(text@)[i]) ==> str_width_of(
                lines_of(text@)[i],
            ) == lines_of(text@)[i].len(),
{
    let lines = split_lines(text);
    let ghost ls = lines_of(text@);
    let mut width: usize = 0;
    let mut i: usize = 0;
    while i < lines.len()
        invariant
            i <= lines@.len(),
            lines@.len() == ls.len(),
            forall|k: int| 0 <= k < lines@.len() ==> #[trigger] lines@[k]@ == ls[k],
            width == widest(ls.take(i as int)),
            forall|k: int|
                0 <= k < i && printable_ascii(#[trigger] ls[k]) ==> str_width_of(ls[k]) == ls[k].len(),
        decreases lines@.len() - i,
    {
        let line = string_of(&lines[i]);
        let w = str_width(line.as_str());
        assert(ls.take(i + 1).drop_last() =~= ls.take(i as int));
        if w > width {
            width = w;
        }
        i = i + 1;
    }
    assert(ls.take(ls.len() as int) =~= ls);
    let height = if lines.len() > 1 {
        lines.len()
    } else {
        1
    };
    (width, height)
}

/// Wrapping of clusters into lines of at most `max` columns, `cur` columns
/// of the current line being taken: a line-feed cluster ends the line; a
/// cluster that does not fit starts a new line (even when it is wider than
/// a whole line).
pub open spec fn wrap_from(gs: Seq<Seq<char>>, max: nat, cur: nat) -> Seq<char>
    decreases gs.len(),
{
    if gs.len() == 0 {
        Seq::empty()
    } else {
        let g = gs[0];
        let w = str_width_of(g);
        if g == seq!['\n'] {
            seq!['\n'] + wrap_from(gs.drop_first(), max, 0)
        } else if cur + w > max {
            seq!['\n'] + g + wrap_from(gs.drop_first(), max, w)
        } else {
            g + wrap_from(gs.drop_first(), max, cur + w)
        }
    }
}

/// Whether a cluster is a single line feed.
fn is_line_feed(g: &Vec<char>) -> (r: bool)
    ensures
        r == (g@ == seq!['\n']),
{
    if g.len() == 1 && g[0] == '\n' {
        assert(g@ =~= seq!['\n']);
        true
    } else {
        false
    }
}

/// Wrap text to fit within a maximum width, breaking between grapheme
/// clusters (see `wrap_from`); empty for width 0.
pub fn wrap_text(text: &str, max_width: usize) -> (s: String)
    ensures
        max_width > 0 ==> without_line_feeds(s@) == without_line_feeds(text@),
        s@ == (if max_width == 0 {
            Seq::empty()
        } else {
            wrap_from(grapheme_clusters(text@), max_width as nat, 0)
        }),
{
    let mut result = String::new();
    if max_width == 0 {
        return result;
    }
    let (cs, ws) = clusters(text);
    let ghost gs = grapheme_clusters(text@);
    assert(views(cs@) =~= gs);
    let mut cur: usize = 0;
    let mut i: usize = 0;
    assert(gs.skip(0) =~= gs);
    assert(result@ + wrap_from(gs, max_width as nat, 0) =~= wrap_from(gs, max_width as nat, 0));
    while i < cs.len()
        invariant
            i <= cs@.len() == ws@.len() == gs.len(),
            forall|k: int| 0 <= k < cs@.len() ==> #[trigger] cs@[k]@ == gs[k],
            forall|k: int| 0 <= k < ws@.len() ==> #[trigger] ws@[k] as nat == str_width_of(gs[k]),
            result@ + wrap_from(gs.skip(i as int), max_width as nat, cur as nat) == wrap_from(
                gs,
                max_width as nat,
                0,
            ),
        decreases cs@.len() - i,
    {
        let ghost before = result@;
        let ghost cur0 = cur as nat;
        let w = ws[i];
        assert(gs.skip(i as int)[0] == gs[i as int]);
        assert(gs.skip(i as int).drop_first() =~= gs.skip(i + 1));
        if is_line_feed(&cs[i]) {
            push_char(&mut result, '\n');
            cur = 0;
        } else if cur > max_width || w > max_width - cur {
            push_char(&mut result, '\n');
            crate::text::push_chars(&mut result, &cs[i], 0, cs[i].len());
            assert(cs@[i as int]@.subrange(0, cs@[i as int]@.len() as int) =~= gs[i as int]);
            cur = w;
        } else {
            crate::text::push_chars(&mut result, &cs[i], 0, cs[i].len());
            assert(cs@[i as int]@.subrange(0, cs@[i as int]@.len() as int) =~= gs[i as int]);
            cur = cur + w;
        }
        assert(result@ + wrap_from(gs.skip(i + 1), max_width as nat, cur as nat) =~= before
            + wrap_from(gs.skip(i as int), max_width as nat, cur0));
        i = i + 1;
    }
    assert(gs.skip(i as int) =~= Seq::<Seq<char>>::empty());
    proof {
        law_wrap_only_breaks_lines(gs, max_width as nat, 0);
    }
    result
}

/// The text without its line feeds.
pub open spec fn without_line_feeds(s: Seq<char>) -> Seq<char> {
    s.filter(|c: char| c != '\n')
}

/// Wrapping only breaks lines: once the line feeds are taken out, the
/// wrapped clusters read as the clusters themselves.
pub proof fn law_wrap_only_breaks_lines(gs: Seq<Seq<char>>, max: nat, cur: nat)
    ensures
        without_line_feeds(wrap_from(gs, max, cur)) == without_line_feeds(concat(gs)),
    decreases gs.len(),
{
    broadcast use Seq::filter_distributes_over_add;

    if gs.len() > 0 {
        let g = gs[0];
        let w = str_width_of(g);
        let rest = gs.drop_first();
        assert(concat(gs) == g + concat(rest));
        assert(without_line_feeds(seq!['\n']) =~= Seq::<char>::empty()) by {
            reveal_with_fuel(Seq::filter, 2);
        }
        if g == seq!['\n'] {
            law_wrap_only_breaks_lines(rest, max, 0);
            assert(without_line_feeds(g) =~= Seq::<char>::empty());
            assert(without_line_feeds(wrap_from(gs, max, cur)) =~= without_line_feeds(concat(gs)));
        } else if cur + w > max {
            law_wrap_only_breaks_lines(rest, max, w);
            assert(without_line_feeds(wrap_from(gs, max, cur)) =~= without_line_feeds(concat(gs)));
        } else {
            law_wrap_only_breaks_lines(rest, max, cur + w);
            assert(without_line_feeds(wrap_from(gs, max, cur)) =~= without_line_feeds(concat(gs)));
        }
    } else {
        assert(without_line_feeds(Seq::<char>::empty()) =~= Seq::<char>::empty()) by {
            reveal(Seq::filter);
        }
    }
}

/// The part of the ellipsis that fits into `max` columns, cut between
/// grapheme clusters.
pub open spec fn ellipsis_part(e: Seq<char>, max: int) -> Seq<char> {
    let eg = grapheme_clusters(e);
    concat(eg.take(fit_count(widths(eg), max) as int))
}

/// The clusters fitting into `budget` columns from the front.
pub open spec fn front_part(s: Seq<char>, budget: int) -> Seq<char> {
    let gs = grapheme_clusters(s);
    concat(gs.take(fit_count(widths(gs), budget) as int))
}

/// The clusters fitting into `budget` columns from the back, in order.
pub open spec fn back_part(s: Seq<char>, budget: int) -> Seq<char> {
    let gs = grapheme_clusters(s);
    let n = fit_count(widths(gs).reverse(), budget);
    concat(gs.subrange(gs.len() - n, gs.len() as int))
}

/// Text truncated at the end: unchanged when it fits; else the clusters
/// that fit next to the ellipsis, then the ellipsis; only part of the
/// ellipsis when even that does not fit.
pub open spec fn truncated_end(text: Seq<char>, max: nat, e: Seq<char>) -> Seq<char> {
    if text_width(text) <= max {
        text
    } else if max <= text_width(e) {
        ellipsis_part(e, max as int)
    } else {
        front_part(text, max - text_width(e)) + e
    }
}

/// Text truncated at the start: like `truncated_end`, keeping the end of
/// the text after the ellipsis.
pub open spec fn truncated_start(text: Seq<char>, max: nat, e: Seq<char>) -> Seq<char> {
    if text_width(text) <= max {
        text
    } else if max <= text_width(e) {
        ellipsis_part(e, max as int)
    } else {
        e + back_part(text, max - text_width(e))
    }
}

/// Text truncated in the middle: like `truncated_end`, keeping the start
/// of the text in half the room left by the ellipsis (rounded down) and
/// its end in the rest.
pub open spec fn truncated_middle(text: Seq<char>, max: nat, e: Seq<char>) -> Seq<char> {
    if text_width(text) <= max {
        text
    } else if max <= text_width(e) {
        ellipsis_part(e, max as int)
    } else {
        let available = max - text_width(e);
        let left = available / 2;
        front_part(text, left) + e + back_part(text, available - left)
    }
}

/// The view of a cluster vector is the clusters of the text.
proof fn lemma_views(cs: Seq<Vec<char>>, ws: Seq<usize>, text: Seq<char>)
    requires
        cs.len() == grapheme_clusters(text).len(),
        ws.len() == grapheme_clusters(text).len(),
        forall|i: int| 0 <= i < cs.len() ==> #[trigger] cs[i]@ == grapheme_clusters(text)[i],
        forall|i: int| 0 <= i < ws.len() ==> #[trigger] ws[i] as nat == widths(
            grapheme_clusters(text),
        )[i],
    ensures
        views(cs) == grapheme_clusters(text),
        nats(ws) == widths(grapheme_clusters(text)),
{
    assert(views(cs) =~= grapheme_clusters(text));
    assert(nats(ws) =~= widths(grapheme_clusters(text)));
}

/// The part of the ellipsis that fits into `max` columns.
fn push_ellipsis_part(out: &mut String, ellipsis: &str, max: usize)
    ensures
        final(out)@ == old(out)@ + ellipsis_part(ellipsis@, max as int),
{
    let (ec, ew) = clusters(ellipsis);
    proof {
        lemma_views(ec@, ew@, ellipsis@);
    }
    let n = fit_front(&ew, max);
    push_clusters(out, &ec, 0, n);
    assert(views(ec@).subrange(0, n as int) =~= views(ec@).take(n as int));
}

/// The width of a text's clusters, exact when it is at most `limit`, and
/// some value above `limit` otherwise.
fn width_upto(ws: &Vec<usize>, limit: usize) -> (r: (bool, usize))
    ensures
        r.0 == (total(nats(ws@)) <= limit),
        r.0 ==> r.1 == total(nats(ws@)),
{
    if fits_within(ws, limit) {
        let w = sum_widths(ws);
        (true, w)
    } else {
        (false, 0)
    }
}

/// Truncate text to fit within a maximum width, cutting between grapheme
/// clusters and ending with `ellipsis` (see `truncated_end`).
pub fn truncate_text(text: &str, max_width: usize, ellipsis: &str) -> (s: String)
    ensures
        s@ == truncated_end(text@, max_width as nat, ellipsis@),
{
    let (cs, ws) = clusters(text);
    proof {
        lemma_views(cs@, ws@, text@);
    }
    if fits_within(&ws, max_width) {
        return text.to_string();
    }
    let (ec, ew) = clusters(ellipsis);
    proof {
        lemma_views(ec@, ew@, ellipsis@);
    }
    let mut result = String::new();
    let (e_fits, e_width) = width_upto(&ew, max_width);
    if !e_fits || max_width <= e_width {
        push_ellipsis_part(&mut result, ellipsis, max_width);
        assert(result@ =~= truncated_end(text@, max_width as nat, ellipsis@));
        return result;
    }
    let n = fit_front(&ws, max_width - e_width);
    push_clusters(&mut result, &cs, 0, n);
    assert(views(cs@).subrange(0, n as int) =~= views(cs@).take(n as int));
    push_str(&mut result, ellipsis);
    assert(result@ =~= truncated_end(text@, max_width as nat, ellipsis@));
    result
}

/// Truncate text from the start, cutting between grapheme clusters and
/// starting with `ellipsis` (see `truncated_start`).
pub fn truncate_start(text: &str, max_width: usize, ellipsis: &str) -> (s: String)
    ensures
        s@ == truncated_start(text@, max_width as nat, ellipsis@),
{
    let (cs, ws) = clusters(text);
    proof {
        lemma_views(cs@, ws@, text@);
    }
    if fits_within(&ws, max_width) {
        return text.to_string();
    }
    let (ec, ew) = clusters(ellipsis);
    proof {
        lemma_views(ec@, ew@, ellipsis@);
    }
    let mut result = String::new();
    let (e_fits, e_width) = width_upto(&ew, max_width);
    if !e_fits || max_width <= e_width {
        push_ellipsis_part(&mut result, ellipsis, max_width);
        assert(result@ =~= truncated_start(text@, max_width as nat, ellipsis@));
        return result;
    }
    let n = fit_back(&ws, max_width - e_width);
    push_str(&mut result, ellipsis);
    push_clusters(&mut result, &cs, cs.len() - n, cs.len());
    assert(result@ =~= truncated_start(text@, max_width as nat, ellipsis@));
    result
}

/// Truncate text in the middle, cutting between grapheme clusters and
/// putting `ellipsis` in the middle (see `truncated_middle`).
pub fn truncate_middle(text: &str, max_width: usize, ellipsis: &str) -> (s: String)
    ensures
        s@ == truncated_middle(text@, max_width as nat, ellipsis@),
{
    let (cs, ws) = clusters(text);
    proof {
        lemma_views(cs@, ws@, text@);
    }
    if fits_within(&ws, max_width) {
        return text.to_string();
    }
    let (ec, ew) = clusters(ellipsis);
    proof {
        lemma_views(ec@, ew@, ellipsis@);
    }
    let mut result = String::new();
    let (e_fits, e_width) = width_upto(&ew, max_width);
    if !e_fits || max_width <= e_width {
        push_ellipsis_part(&mut result, ellipsis, max_width);
        assert(result@ =~= truncated_middle(text@, max_width as nat, ellipsis@));
        return result;
    }
    let available = max_width - e_width;
    let left_width = available / 2;
    let right_width = available - left_width;
    let nl = fit_front(&ws, left_width);
    let nr = fit_back(&ws, right_width);
    push_clusters(&mut result, &cs, 0, nl);
    assert(views(cs@).subrange(0, nl as int) =~= views(cs@).take(nl as int));
    push_str(&mut result, ellipsis);
    push_clusters(&mut result, &cs, cs.len() - nr, cs.len());
    assert(result@ =~= truncated_middle(text@, max_width as nat, ellipsis@));
    result
}

/// Text alignment.
#[derive(Debug, Clone, Copy, PartialEq, Eq, Structural)]
pub enum TextAlign {
    Left,
    Right,
    Center,
}

impl Default for TextAlign {
    fn default() -> (r: Self)
        ensures
            r == TextAlign::Left,
    {
        TextAlign::Left
    }
}

/// Text padded with spaces to `width` columns (measured with
/// `UnicodeWidthStr::width` on the whole text): on the right, on the left,
/// or half on each side (the extra space going right); unchanged when
/// already at least that wide.
pub open spec fn padded(text: Seq<char>, width: nat, align: TextAlign) -> Seq<char> {
    let tw = str_width_of(text);
    if tw >= width {
        text
    } else {
        let p = (width - tw) as nat;
        match align {
            TextAlign::Left => text + repeated(' ', p),
            TextAlign::Right => repeated(' ', p) + text,
            TextAlign::Center => repeated(' ', p / 2) + text + repeated(' ', (p - p / 2) as nat),
        }
    }
}

/// Pad text to a specific width (see `padded`).
pub fn pad_text(text: &str, width: usize, align: TextAlign) -> (s: String)
    ensures
        printable_ascii(text@) ==> str_width_of(text@) == text@.len(),
        s@ == padded(text@, width as nat, align),
{
    let tw = str_width(text);
    if tw >= width {
        return text.to_string();
    }
    let padding = width - tw;
    let mut s = String::new();
    match align {
        TextAlign::Left => {
            push_str(&mut s, text);
            push_repeated(&mut s, ' ', padding);
        },
        TextAlign::Right => {
            push_repeated(&mut s, ' ', padding);
            push_str(&mut s, text);
        },
        TextAlign::Center => {
            let left = padding / 2;
            push_repeated(&mut s, ' ', left);
            push_str(&mut s, text);
            push_repeated(&mut s, ' ', padding - left);
        },
    }
    assert(s@ =~= padded(text@, width as nat, align));
    s
}

/// The widths taken from the front fit into the budget, and the next one
/// (if any) would not: truncation keeps as many clusters as fit and no more.
pub proof fn law_fit_count_is_greatest_fit(ws: Seq<nat>, budget: int)
    requires
        budget >= 0,
    ensures
        fit_count(ws, budget) <= ws.len(),
        total(ws.take(fit_count(ws, budget) as int)) <= budget,
        fit_count(ws, budget) < ws.len() ==> total(ws.take(fit_count(ws, budget) + 1int)) > budget,
    decreases ws.len(),
{
    if ws.len() > 0 && ws[0] <= budget {
        let rest = ws.drop_first();
        law_fit_count_is_greatest_fit(rest, budget - ws[0]);
        let n = fit_count(rest, budget - ws[0]);
        lemma_total_front(ws.take(n + 1int));
        assert(ws.take(n + 1int).drop_first() =~= rest.take(n as int));
        if n < rest.len() {
            lemma_total_front(ws.take(n + 2int));
            assert(ws.take(n + 2int).drop_first() =~= rest.take(n + 1int));
        }
    } else if ws.len() > 0 {
        assert(ws.take(0) =~= Seq::<nat>::empty());
        lemma_total_front(ws.take(1));
        assert(ws.take(1).drop_first() =~= Seq::<nat>::empty());
    } else {
        assert(ws.take(0) =~= Seq::<nat>::empty());
    }
}

/// The total of widths is the first plus the total of the rest.
proof fn lemma_total_front(ws: Seq<nat>)
    requires
        ws.len() > 0,
    ensures
        total(ws) == ws[0] + total(ws.drop_first()),
    decreases ws.len(),
{
    if ws.len() > 1 {
        lemma_total_front(ws.drop_last());
        assert(ws.drop_last().drop_first() =~= ws.drop_first().drop_last());
        assert(ws.drop_first().last() == ws.last());
        assert(total(ws.drop_first()) == total(ws.drop_first().drop_last()) + ws.drop_first().last());
        assert(ws.drop_last()[0] == ws[0]);
        assert(total(ws) == total(ws.drop_last()) + ws.last());
    } else {
        assert(ws.drop_first() =~= Seq::<nat>::empty());
        assert(ws.drop_last() =~= Seq::<nat>::empty());
        assert(total(ws) == total(ws.drop_last()) + ws.last());
    }
}

/// Padding adds exactly the missing columns as spaces, placed according to
/// the alignment, and keeps the text itself.
pub proof fn law_padding_adds_missing_spaces(text: Seq<char>, width: nat, align: TextAlign)
    requires
        str_width_of(text) < width,
    ensures
        padded(text, width, align).len() == text.len() + (width - str_width_of(text)),
        align == TextAlign::Left ==> padded(text, width, align).take(text.len() as int) == text,
        align == TextAlign::Right ==> padded(text, width, align).skip(width - str_width_of(text)) == text,
{
    let p = (width - str_width_of(text)) as nat;
    match align {
        TextAlign::Left => {
            assert((text + repeated(' ', p)).take(text.len() as int) =~= text);
        },
        TextAlign::Right => {
            assert((repeated(' ', p) + text).skip(p as int) =~= text);
        },
        TextAlign::Center => {},
    }
}

/// The width `measure_text` gives is the widest line's: at least the
/// display width of every line, and equal to the width of one of them (0
/// without lines).
pub proof fn law_measured_width_is_the_widest_line(lines: Seq<Seq<char>>)
    ensures
        forall|i: int| 0 <= i < lines.len() ==> widest(lines) >= str_width_of(#[trigger] lines[i]),
        lines.len() == 0 ==> widest(lines) == 0,
        lines.len() > 0 ==> exists|i: int| 0 <= i < lines.len() && widest(lines) == str_width_of(#[trigger] lines[i]),
    decreases lines.len(),
{
    if lines.len() > 0 {
        let rest = lines.drop_last();
        law_measured_width_is_the_widest_line(rest);
        assert forall|i: int| 0 <= i < lines.len() implies widest(lines) >= str_width_of(#[trigger] lines[i]) by {
            if i < rest.len() {
                assert(lines[i] == rest[i]);
            }
        }
        if str_width_of(lines.last()) > widest(rest) || rest.len() == 0 {
            assert(widest(lines) == str_width_of(lines[lines.len() - 1]));
        } else {
            let j = choose|j: int| 0 <= j < rest.len() && widest(rest) == str_width_of(#[trigger] rest[j]);
            assert(lines[j] == rest[j]);
            assert(widest(lines) == str_width_of(lines[j]));
        }
    }
}

} // verus!
