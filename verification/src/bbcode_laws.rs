//! Laws of the bbcode translation.
use vstd::prelude::*;

use crate::bbcode::{
    TagInfoView, MatchInfoView, MatchTypeView, PatternView, ScopeView,
    spec_build, translate, run, step, first_match, match_at, plain_len, is_plain, has_at,
    tag_matchers, html_escape_pairs, escape_matcher, start_scope, closes_text, close_tag_text,
    add_scope_spec, close_scope_spec, last_with_tag, lemma_last_with_tag, escape_char, escape_text,
};

verus! {

/// No character of `s` opens a bracket.
pub open spec fn no_brackets(s: Seq<char>) -> bool {
    forall|i: int| 0 <= i < s.len() ==> s[i] != '['
}

proof fn lemma_tag_matchers_are_tags(infos: Seq<TagInfoView>)
    ensures
        forall|j: int| 0 <= j < tag_matchers(infos).len() ==> (#[trigger] tag_matchers(infos)[j]).pattern matches PatternView::OpenTag(_)
            || tag_matchers(infos)[j].pattern matches PatternView::CloseTag(_),
    decreases infos.len(),
{
    if infos.len() > 0 {
        lemma_tag_matchers_are_tags(infos.drop_last());
        let t = infos.last();
        let rest = tag_matchers(infos.drop_last());
        let last2 = seq![
            MatchInfoView { pattern: PatternView::OpenTag(t.tag), match_type: MatchTypeView::Open(t) },
            MatchInfoView { pattern: PatternView::CloseTag(t.tag), match_type: MatchTypeView::Close(t) },
        ];
        assert forall|j: int| 0 <= j < tag_matchers(infos).len() implies (#[trigger] tag_matchers(infos)[j]).pattern matches PatternView::OpenTag(_)
            || tag_matchers(infos)[j].pattern matches PatternView::CloseTag(_) by {
            if j < rest.len() {
                assert(tag_matchers(infos)[j] == rest[j]);
            } else {
                assert(tag_matchers(infos)[j] == last2[j - rest.len()]);
            }
        }
    }
}

/// Past the escapes, only tag matchers remain, and none of them applies where there is no `[`.
proof fn lemma_no_tag_match(infos: Seq<TagInfoView>, s: Seq<char>, pos: int, i: int, cur: TagInfoView)
    requires
        6 <= i,
        0 <= pos < s.len(),
        s[pos] != '[',
    ensures
        first_match(spec_build(infos), i, s, pos, cur) is None,
    decreases spec_build(infos).len() - i,
{
    let tags = spec_build(infos);
    if i < tags.len() {
        lemma_tag_matchers_are_tags(infos);
        let pre = seq![MatchInfoView { pattern: PatternView::Plain, match_type: MatchTypeView::Passthrough }]
            + html_escape_pairs().map_values(|p: (Seq<char>, Seq<char>)| escape_matcher(p));
        assert(pre.len() == 6);
        assert(tags[i] == tag_matchers(infos)[i - 6]);
        assert(match_at(tags[i].pattern, s, pos) is None);
        lemma_no_tag_match(infos, s, pos, i + 1, cur);
    }
}

proof fn lemma_escape_plain_prefix(s: Seq<char>, pos: int, k: int)
    requires
        0 <= pos,
        0 <= k,
        pos + k <= s.len(),
        forall|i: int| pos <= i < pos + k ==> is_plain(#[trigger] s[i]),
    ensures
        escape_text(s.skip(pos)) == s.subrange(pos, pos + k) + escape_text(s.skip(pos + k)),
    decreases k,
{
    if k > 0 {
        lemma_escape_plain_prefix(s, pos + 1, k - 1);
        assert(s.skip(pos).drop_first() =~= s.skip(pos + 1));
        assert(is_plain(s[pos]));
        assert(escape_char(s.skip(pos)[0]) == seq![s[pos]]);
        assert(s.subrange(pos, pos + k) =~= seq![s[pos]] + s.subrange(pos + 1, pos + k));
    } else {
        assert(s.subrange(pos, pos) =~= Seq::<char>::empty());
    }
}

proof fn lemma_plain_run_all_plain(s: Seq<char>, pos: int)
    requires
        0 <= pos <= s.len(),
    ensures
        forall|i: int| pos <= i < pos + plain_len(s, pos) ==> is_plain(#[trigger] s[i]),
        0 <= plain_len(s, pos),
        pos + plain_len(s, pos) <= s.len(),
    decreases s.len() - pos,
{
    if pos < s.len() && is_plain(s[pos]) {
        lemma_plain_run_all_plain(s, pos + 1);
    }
}

proof fn lemma_escape_steps(infos: Seq<TagInfoView>, s: Seq<char>, pos: int)
    requires
        no_brackets(s),
        0 <= pos <= s.len(),
    ensures
        run(spec_build(infos), s, pos, seq![start_scope()]) == escape_text(s.skip(pos)),
    decreases s.len() - pos,
{
    let tags = spec_build(infos);
    let stack = seq![start_scope()];
    if pos >= s.len() {
        assert(stack.reverse() =~= stack);
        assert(closes_text(stack.reverse(), s, s.len() as int) == closes_text(stack.drop_last(), s, s.len() as int)
            + close_tag_text(start_scope(), s, s.len() as int));
        assert(stack.drop_last() =~= Seq::<ScopeView>::empty());
        assert(s.skip(pos) =~= Seq::<char>::empty());
    } else {
        let cur = start_scope().info;
        assert(stack.last().info == cur);
        let pre = seq![MatchInfoView { pattern: PatternView::Plain, match_type: MatchTypeView::Passthrough }]
            + html_escape_pairs().map_values(|p: (Seq<char>, Seq<char>)| escape_matcher(p));
        assert(tags[0] == pre[0]);
        assert(tags[1] == pre[1]);
        assert(tags[2] == pre[2]);
        assert(tags[3] == pre[3]);
        assert(tags[4] == pre[4]);
        assert(tags[5] == pre[5]);
        lemma_plain_run_all_plain(s, pos);
        let k = plain_len(s, pos);
        let c = s[pos];
        assert(s.skip(pos)[0] == c);
        assert(s.skip(pos).drop_first() =~= s.skip(pos + 1));
        if k > 0 {
            assert(first_match(tags, 0, s, pos, cur) == Some((0int, k, None::<(int, int)>)));
            let (np, st, out) = step(tags, s, pos, stack);
            assert(np == pos + k && st == stack && out == s.subrange(pos, pos + k));
            lemma_escape_steps(infos, s, pos + k);
            lemma_escape_plain_prefix(s, pos, k);
        } else {
            lemma_no_tag_match(infos, s, pos, 6, cur);
            assert(c != '[');
            assert(s.subrange(pos, pos + 1) =~= seq![c]);
            assert(has_at(s, pos, seq![c]));
            if c == '<' {
                assert(first_match(tags, 0, s, pos, cur) == first_match(tags, 1, s, pos, cur));
                assert(first_match(tags, 1, s, pos, cur) == Some((1int, 1int, None::<(int, int)>)));
            } else if c == '>' {
                assert(first_match(tags, 0, s, pos, cur) == first_match(tags, 1, s, pos, cur));
                assert(first_match(tags, 1, s, pos, cur) == first_match(tags, 2, s, pos, cur));
                assert(first_match(tags, 2, s, pos, cur) == Some((2int, 1int, None::<(int, int)>)));
            } else if c == '&' {
                assert(first_match(tags, 0, s, pos, cur) == first_match(tags, 1, s, pos, cur));
                assert(first_match(tags, 1, s, pos, cur) == first_match(tags, 2, s, pos, cur));
                assert(first_match(tags, 2, s, pos, cur) == first_match(tags, 3, s, pos, cur));
                assert(first_match(tags, 3, s, pos, cur) == Some((3int, 1int, None::<(int, int)>)));
            } else if c == '"' {
                assert(first_match(tags, 0, s, pos, cur) == first_match(tags, 1, s, pos, cur));
                assert(first_match(tags, 1, s, pos, cur) == first_match(tags, 2, s, pos, cur));
                assert(first_match(tags, 2, s, pos, cur) == first_match(tags, 3, s, pos, cur));
                assert(first_match(tags, 3, s, pos, cur) == first_match(tags, 4, s, pos, cur));
                assert(first_match(tags, 4, s, pos, cur) == Some((4int, 1int, None::<(int, int)>)));
            } else if c == '\'' {
                assert(first_match(tags, 0, s, pos, cur) == first_match(tags, 1, s, pos, cur));
                assert(first_match(tags, 1, s, pos, cur) == first_match(tags, 2, s, pos, cur));
                assert(first_match(tags, 2, s, pos, cur) == first_match(tags, 3, s, pos, cur));
                assert(first_match(tags, 3, s, pos, cur) == first_match(tags, 4, s, pos, cur));
                assert(first_match(tags, 4, s, pos, cur) == first_match(tags, 5, s, pos, cur));
                assert(first_match(tags, 5, s, pos, cur) == Some((5int, 1int, None::<(int, int)>)));
            } else {
                assert(first_match(tags, 0, s, pos, cur) == first_match(tags, 1, s, pos, cur));
                assert(first_match(tags, 1, s, pos, cur) == first_match(tags, 2, s, pos, cur));
                assert(first_match(tags, 2, s, pos, cur) == first_match(tags, 3, s, pos, cur));
                assert(first_match(tags, 3, s, pos, cur) == first_match(tags, 4, s, pos, cur));
                assert(first_match(tags, 4, s, pos, cur) == first_match(tags, 5, s, pos, cur));
                assert(first_match(tags, 5, s, pos, cur) == first_match(tags, 6, s, pos, cur));
            }
            lemma_escape_steps(infos, s, pos + 1);
        }
    }
}

/// Text without tags comes out html escaped: `< > & " '` become entities and every other
/// character is kept, whatever tags the translator was built with.
pub proof fn law_text_without_tags_is_escaped(infos: Seq<TagInfoView>, s: Seq<char>)
    requires
        no_brackets(s),
    ensures
        translate(spec_build(infos), s) == escape_text(s),
{
    lemma_escape_steps(infos, s, 0);
    assert(s.skip(0) =~= s);
}

/// A closing tag that matches no open scope closes nothing and is dropped.
pub proof fn law_unmatched_close_is_ignored(stack: Seq<ScopeView>, tag: Seq<char>)
    requires
        forall|i: int| 0 <= i < stack.len() ==> #[trigger] stack[i].info.tag != tag,
    ensures
        close_scope_spec(stack, tag) == (stack, Seq::<ScopeView>::empty()),
{
    lemma_last_with_tag(stack, tag, stack.len() as int);
}

/// A closing tag closes its innermost open scope and every scope opened after it, innermost first.
pub proof fn law_early_close_closes_inner_scopes(stack: Seq<ScopeView>, tag: Seq<char>, i: int)
    requires
        0 <= i < stack.len(),
        stack[i].info.tag == tag,
        forall|j: int| i < j < stack.len() ==> #[trigger] stack[j].info.tag != tag,
    ensures
        close_scope_spec(stack, tag) == (stack.take(i), stack.skip(i).reverse()),
{
    lemma_last_with_tag(stack, tag, stack.len() as int);
    lemma_last_is_highest(stack, tag, stack.len() as int, i);
}

proof fn lemma_last_is_highest(stack: Seq<ScopeView>, tag: Seq<char>, k: int, i: int)
    requires
        0 <= i < k <= stack.len(),
        stack[i].info.tag == tag,
        forall|j: int| i < j < stack.len() ==> #[trigger] stack[j].info.tag != tag,
    ensures
        last_with_tag(stack, tag, k) == Some(i),
    decreases k,
{
    if k - 1 != i {
        lemma_last_is_highest(stack, tag, k - 1, i);
    }
}

/// Opening a tag while the innermost scope has the same tag closes that scope first (one level only).
pub proof fn law_duplicate_open_closes_previous(stack: Seq<ScopeView>, sc: ScopeView)
    requires
        stack.len() > 0,
        stack.last().info.tag == sc.info.tag,
    ensures
        add_scope_spec(stack, sc) == (stack.drop_last().push(sc), seq![stack.last()]),
{
}

/// At the end of the input, every scope still open is closed, innermost first.
pub proof fn law_unclosed_scopes_closed_at_end(tags: Seq<MatchInfoView>, s: Seq<char>, stack: Seq<ScopeView>)
    ensures
        run(tags, s, s.len() as int, stack) == closes_text(stack.reverse(), s, s.len() as int),
{
}

} // verus!
