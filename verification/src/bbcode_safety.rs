//! What html a translation can produce: whatever the input, it opens and closes no element
//! other than those its tag table names.
use vstd::prelude::*;

use crate::bbcode::{
    basic_tags, close_tag_text, closes_text, end_tag_text, escape_char, escape_matcher, escape_text,
    first_match, has_at, html_escape_pairs, is_plain, match_at, open_tag_text, plain_len, run,
    spec_build, start_scope, step, tag_arg, tag_matchers, translate, add_scope_spec, close_scope_spec,
    last_with_tag, lemma_last_with_tag,
    MatchInfoView, MatchTypeView, PatternView, ScopeView, TagInfoView, TagTypeView,
};
use crate::text::{quoted_attribute_char, spec_encode_quoted_attribute};

verus! {

/// At `k`, `o` holds `<` followed by the opening (`outtag`) or closing (`/outtag`) of one of
/// the table's elements.
pub open spec fn table_tag_at(o: Seq<char>, k: int, infos: Seq<TagInfoView>) -> bool {
    exists|j: int|
        0 <= j < infos.len() && (has_at(o, k + 1, #[trigger] infos[j].outtag) || has_at(
            o,
            k + 1,
            seq!['/'] + infos[j].outtag,
        ))
}

/// Every `<` of `o` begins the opening or the closing of an element the table names.
pub open spec fn opens_only_table_tags(o: Seq<char>, infos: Seq<TagInfoView>) -> bool {
    forall|k: int| 0 <= k < o.len() && #[trigger] o[k] == '<' ==> table_tag_at(o, k, infos)
}

/// `o` holds no `<`.
pub open spec fn no_lt(o: Seq<char>) -> bool {
    forall|k: int| 0 <= k < o.len() ==> #[trigger] o[k] != '<'
}

/// A tag puts no `<` of its own into html: its element name, its attribute name and its raw
/// extra hold none.
pub open spec fn info_clean(i: TagInfoView) -> bool {
    &&& no_lt(i.outtag)
    &&& match i.rawextra {
        Some(r) => no_lt(r),
        None => true,
    }
    &&& match i.tag_type {
        TagTypeView::DefinedArg(a) => no_lt(a),
        TagTypeView::SelfClosing(a) => no_lt(a),
        TagTypeView::DefaultArg(a) => no_lt(a),
        _ => true,
    }
}

/// Every tag of the table is clean.
pub open spec fn clean_table(infos: Seq<TagInfoView>) -> bool {
    forall|j: int| 0 <= j < infos.len() ==> info_clean(#[trigger] infos[j])
}

/// The tag is one of the table's (or the outermost scope, which closes with nothing).
pub open spec fn info_in(info: TagInfoView, infos: Seq<TagInfoView>) -> bool {
    info.tag_type is Start || exists|j: int| 0 <= j < infos.len() && #[trigger] infos[j] == info
}

/// Every open scope is of a tag of the table.
pub open spec fn stack_ok(st: Seq<ScopeView>, infos: Seq<TagInfoView>) -> bool {
    forall|i: int| 0 <= i < st.len() ==> info_in(#[trigger] st[i].info, infos)
}

/// What a matcher of a translator built for the table can do: pass plain text through,
/// put text without `<` in place of what it matched, or open or close a tag of the table.
pub open spec fn matcher_ok(m: MatchInfoView, infos: Seq<TagInfoView>) -> bool {
    match m.match_type {
        MatchTypeView::Passthrough => m.pattern is Plain,
        MatchTypeView::DirectReplace(t) => no_lt(t),
        MatchTypeView::Open(t) => exists|j: int| 0 <= j < infos.len() && #[trigger] infos[j] == t,
        MatchTypeView::Close(t) => exists|j: int| 0 <= j < infos.len() && #[trigger] infos[j] == t,
    }
}

proof fn lemma_concat(a: Seq<char>, b: Seq<char>, infos: Seq<TagInfoView>)
    requires
        opens_only_table_tags(a, infos),
        opens_only_table_tags(b, infos),
    ensures
        opens_only_table_tags(a + b, infos),
{
    let o = a + b;
    assert forall|k: int| 0 <= k < o.len() && #[trigger] o[k] == '<' implies table_tag_at(o, k, infos) by {
        if k < a.len() {
            assert(a[k] == '<');
            let j = choose|j: int|
                0 <= j < infos.len() && (has_at(a, k + 1, #[trigger] infos[j].outtag) || has_at(
                    a,
                    k + 1,
                    seq!['/'] + infos[j].outtag,
                ));
            let t1 = infos[j].outtag;
            let t2 = seq!['/'] + infos[j].outtag;
            if has_at(a, k + 1, t1) {
                assert(o.subrange(k + 1, k + 1 + t1.len()) =~= a.subrange(k + 1, k + 1 + t1.len()));
            } else {
                assert(o.subrange(k + 1, k + 1 + t2.len()) =~= a.subrange(k + 1, k + 1 + t2.len()));
            }
        } else {
            let kb = k - a.len();
            assert(b[kb] == '<');
            let j = choose|j: int|
                0 <= j < infos.len() && (has_at(b, kb + 1, #[trigger] infos[j].outtag) || has_at(
                    b,
                    kb + 1,
                    seq!['/'] + infos[j].outtag,
                ));
            let t1 = infos[j].outtag;
            let t2 = seq!['/'] + infos[j].outtag;
            if has_at(b, kb + 1, t1) {
                assert(o.subrange(k + 1, k + 1 + t1.len()) =~= b.subrange(kb + 1, kb + 1 + t1.len()));
            } else {
                assert(o.subrange(k + 1, k + 1 + t2.len()) =~= b.subrange(kb + 1, kb + 1 + t2.len()));
            }
        }
    }
}

proof fn lemma_no_lt_concat(a: Seq<char>, b: Seq<char>)
    requires
        no_lt(a),
        no_lt(b),
    ensures
        no_lt(a + b),
{
    assert forall|k: int| 0 <= k < (a + b).len() implies #[trigger] (a + b)[k] != '<' by {
        if k < a.len() {
            assert((a + b)[k] == a[k]);
        } else {
            assert((a + b)[k] == b[k - a.len()]);
        }
    }
}

proof fn lemma_escape_no_lt(t: Seq<char>)
    ensures
        no_lt(escape_text(t)),
    decreases t.len(),
{
    if t.len() > 0 {
        lemma_escape_no_lt(t.drop_first());
        let c = t[0];
        assert(no_lt(escape_char(c)));
        lemma_no_lt_concat(escape_char(c), escape_text(t.drop_first()));
    }
}

proof fn lemma_encode_no_lt(t: Seq<char>)
    ensures
        no_lt(spec_encode_quoted_attribute(t)),
    decreases t.len(),
{
    if t.len() > 0 {
        lemma_encode_no_lt(t.drop_last());
        assert(no_lt(quoted_attribute_char(t.last())));
        lemma_no_lt_concat(spec_encode_quoted_attribute(t.drop_last()), quoted_attribute_char(t.last()));
    }
}

proof fn lemma_plain_no_lt(s: Seq<char>, pos: int)
    requires
        0 <= pos <= s.len(),
    ensures
        pos + plain_len(s, pos) <= s.len(),
        0 <= plain_len(s, pos),
        no_lt(s.subrange(pos, pos + plain_len(s, pos))),
    decreases s.len() - pos,
{
    if pos < s.len() && is_plain(s[pos]) {
        lemma_plain_no_lt(s, pos + 1);
        let k = plain_len(s, pos);
        assert(s.subrange(pos, pos + k) =~= seq![s[pos]] + s.subrange(pos + 1, pos + k));
        lemma_no_lt_concat(seq![s[pos]], s.subrange(pos + 1, pos + k));
    } else {
        assert(s.subrange(pos, pos) =~= Seq::<char>::empty());
    }
}

/// `<` followed by text without `<` that begins with the element name `t`.
proof fn lemma_lt_then(rest: Seq<char>, t: Seq<char>, j: int, infos: Seq<TagInfoView>)
    requires
        0 <= j < infos.len(),
        t == infos[j].outtag || t == seq!['/'] + infos[j].outtag,
        no_lt(rest),
        rest.len() >= t.len(),
        rest.subrange(0, t.len() as int) == t,
    ensures
        opens_only_table_tags(seq!['<'] + rest, infos),
{
    let o = seq!['<'] + rest;
    assert(o.subrange(1, 1 + t.len() as int) =~= rest.subrange(0, t.len() as int));
    assert(has_at(o, 1, t));
    assert forall|k: int| 0 <= k < o.len() && #[trigger] o[k] == '<' implies table_tag_at(o, k, infos) by {
        if k > 0 {
            assert(o[k] == rest[k - 1]);
        } else {
            assert(infos[j].outtag == infos[j].outtag);
        }
    }
}

proof fn lemma_tag_arg_no_lt(name: Seq<char>, val: Option<Seq<char>>)
    requires
        no_lt(name),
    ensures
        no_lt(tag_arg(name, val)),
{
    lemma_no_lt_concat(seq![' '], name);
    lemma_no_lt_concat(seq![' '] + name, seq!['=', '"']);
    match val {
        Some(v) => {
            lemma_encode_no_lt(v.skip(1));
            lemma_no_lt_concat(spec_encode_quoted_attribute(v.skip(1)), seq!['"']);
            lemma_no_lt_concat(seq![' '] + name + seq!['=', '"'], spec_encode_quoted_attribute(v.skip(1)) + seq!['"']);
        },
        None => {
            lemma_no_lt_concat(seq![' '] + name + seq!['=', '"'], Seq::<char>::empty());
        },
    }
}

proof fn lemma_open_tag(info: TagInfoView, arg: Option<Seq<char>>, j: int, infos: Seq<TagInfoView>)
    requires
        0 <= j < infos.len(),
        infos[j] == info,
        info_clean(info),
    ensures
        opens_only_table_tags(open_tag_text(info, arg), infos),
{
    let extra = match info.rawextra {
        Some(r) => seq![' '] + r,
        None => Seq::<char>::empty(),
    };
    let tail = match info.tag_type {
        TagTypeView::Start => Seq::<char>::empty(),
        TagTypeView::Simple => seq!['>'],
        TagTypeView::DefinedArg(a) => match arg {
            Some(_) => tag_arg(a, arg) + seq!['>'],
            None => seq!['>'],
        },
        TagTypeView::SelfClosing(a) => match arg {
            Some(_) => tag_arg(a, arg) + seq!['>'],
            None => tag_arg(a, None),
        },
        TagTypeView::DefaultArg(a) => match arg {
            Some(_) => tag_arg(a, arg) + seq!['>'],
            None => tag_arg(a, None),
        },
    };
    match info.rawextra {
        Some(r) => lemma_no_lt_concat(seq![' '], r),
        None => {},
    }
    match info.tag_type {
        TagTypeView::DefinedArg(a) => {
            lemma_tag_arg_no_lt(a, arg);
            lemma_no_lt_concat(tag_arg(a, arg), seq!['>']);
        },
        TagTypeView::SelfClosing(a) => {
            lemma_tag_arg_no_lt(a, arg);
            lemma_tag_arg_no_lt(a, None);
            lemma_no_lt_concat(tag_arg(a, arg), seq!['>']);
        },
        TagTypeView::DefaultArg(a) => {
            lemma_tag_arg_no_lt(a, arg);
            lemma_tag_arg_no_lt(a, None);
            lemma_no_lt_concat(tag_arg(a, arg), seq!['>']);
        },
        _ => {},
    }
    assert(no_lt(tail));
    let rest = info.outtag + extra + tail;
    lemma_no_lt_concat(info.outtag, extra);
    lemma_no_lt_concat(info.outtag + extra, tail);
    assert(open_tag_text(info, arg) =~= seq!['<'] + rest);
    assert(rest.subrange(0, info.outtag.len() as int) =~= info.outtag);
    lemma_lt_then(rest, info.outtag, j, infos);
}

proof fn lemma_end_tag(info: TagInfoView, j: int, infos: Seq<TagInfoView>)
    requires
        0 <= j < infos.len(),
        infos[j] == info,
        info_clean(info),
    ensures
        opens_only_table_tags(end_tag_text(info), infos),
{
    let t = seq!['/'] + info.outtag;
    let rest = t + seq!['>'];
    lemma_no_lt_concat(seq!['/'], info.outtag);
    lemma_no_lt_concat(t, seq!['>']);
    assert(end_tag_text(info) =~= seq!['<'] + rest);
    assert(rest.subrange(0, t.len() as int) =~= t);
    lemma_lt_then(rest, t, j, infos);
}

proof fn lemma_no_lt_opens(o: Seq<char>, infos: Seq<TagInfoView>)
    requires
        no_lt(o),
    ensures
        opens_only_table_tags(o, infos),
{
    assert forall|k: int| 0 <= k < o.len() && #[trigger] o[k] == '<' implies table_tag_at(o, k, infos) by {}
}

proof fn lemma_close_tag(sc: ScopeView, s: Seq<char>, end: int, infos: Seq<TagInfoView>)
    requires
        clean_table(infos),
        info_in(sc.info, infos),
    ensures
        opens_only_table_tags(close_tag_text(sc, s, end), infos),
{
    let o = close_tag_text(sc, s, end);
    if sc.info.tag_type is Start {
        lemma_no_lt_opens(o, infos);
    } else {
        let j = choose|j: int| 0 <= j < infos.len() && #[trigger] infos[j] == sc.info;
        assert(info_clean(infos[j]));
        lemma_end_tag(sc.info, j, infos);
        match sc.info.tag_type {
            TagTypeView::SelfClosing(_) => {
                assert(no_lt(seq!['"', '>']));
                assert(no_lt(Seq::<char>::empty()));
                lemma_no_lt_opens(o, infos);
            },
            TagTypeView::DefaultArg(_) => {
                if !sc.has_arg {
                    let inner = escape_text(s.subrange(sc.inner_start, end));
                    lemma_escape_no_lt(s.subrange(sc.inner_start, end));
                    lemma_no_lt_concat(seq!['"', '>'], inner);
                    lemma_no_lt_opens(seq!['"', '>'] + inner, infos);
                    lemma_concat(seq!['"', '>'] + inner, end_tag_text(sc.info), infos);
                }
            },
            _ => {},
        }
    }
}

proof fn lemma_closes(scs: Seq<ScopeView>, s: Seq<char>, end: int, infos: Seq<TagInfoView>)
    requires
        clean_table(infos),
        stack_ok(scs, infos),
    ensures
        opens_only_table_tags(closes_text(scs, s, end), infos),
    decreases scs.len(),
{
    if scs.len() == 0 {
        lemma_no_lt_opens(Seq::<char>::empty(), infos);
    } else {
        assert(stack_ok(scs.drop_last(), infos)) by {
            assert forall|i: int| 0 <= i < scs.drop_last().len() implies info_in(#[trigger] scs.drop_last()[i].info, infos) by {
                assert(scs.drop_last()[i] == scs[i]);
            }
        }
        assert(info_in(scs[scs.len() - 1].info, infos));
        lemma_closes(scs.drop_last(), s, end, infos);
        lemma_close_tag(scs.last(), s, end, infos);
        lemma_concat(closes_text(scs.drop_last(), s, end), close_tag_text(scs.last(), s, end), infos);
    }
}

proof fn lemma_tag_matchers_ok(infos: Seq<TagInfoView>)
    ensures
        forall|j: int| 0 <= j < tag_matchers(infos).len() ==> matcher_ok(#[trigger] tag_matchers(infos)[j], infos),
    decreases infos.len(),
{
    if infos.len() > 0 {
        let rest_infos = infos.drop_last();
        lemma_tag_matchers_ok(rest_infos);
        let t = infos.last();
        let rest = tag_matchers(rest_infos);
        let last2 = seq![
            MatchInfoView { pattern: PatternView::OpenTag(t.tag), match_type: MatchTypeView::Open(t) },
            MatchInfoView { pattern: PatternView::CloseTag(t.tag), match_type: MatchTypeView::Close(t) },
        ];
        assert(tag_matchers(infos) == rest + last2);
        assert forall|j: int| 0 <= j < tag_matchers(infos).len() implies matcher_ok(#[trigger] tag_matchers(infos)[j], infos) by {
            if j < rest.len() {
                assert(tag_matchers(infos)[j] == rest[j]);
                assert(matcher_ok(rest[j], rest_infos));
                match rest[j].match_type {
                    MatchTypeView::Open(u) => {
                        let k = choose|k: int| 0 <= k < rest_infos.len() && #[trigger] rest_infos[k] == u;
                        assert(infos[k] == u);
                    },
                    MatchTypeView::Close(u) => {
                        let k = choose|k: int| 0 <= k < rest_infos.len() && #[trigger] rest_infos[k] == u;
                        assert(infos[k] == u);
                    },
                    _ => {},
                }
            } else {
                assert(tag_matchers(infos)[j] == last2[j - rest.len()]);
                assert(infos[infos.len() - 1] == t);
            }
        }
    }
}

/// Every matcher of a translator built for the table is one of the harmless kinds.
proof fn lemma_build_ok(infos: Seq<TagInfoView>)
    ensures
        forall|i: int| 0 <= i < spec_build(infos).len() ==> matcher_ok(#[trigger] spec_build(infos)[i], infos),
{
    let tags = spec_build(infos);
    let pre = seq![MatchInfoView { pattern: PatternView::Plain, match_type: MatchTypeView::Passthrough }]
        + html_escape_pairs().map_values(|p: (Seq<char>, Seq<char>)| escape_matcher(p));
    assert(pre.len() == 6);
    lemma_tag_matchers_ok(infos);
    assert forall|i: int| 0 <= i < tags.len() implies matcher_ok(#[trigger] tags[i], infos) by {
        if i < 6 {
            assert(tags[i] == pre[i]);
            if i > 0 {
                let p = html_escape_pairs()[i - 1];
                assert(pre[i] == escape_matcher(p));
                assert(no_lt(p.1));
            }
        } else {
            assert(tags[i] == tag_matchers(infos)[i - 6]);
        }
    }
}

proof fn lemma_first_match_range(tags: Seq<MatchInfoView>, i0: int, s: Seq<char>, pos: int, cur: TagInfoView)
    ensures
        first_match(tags, i0, s, pos, cur) matches Some((i, l, a)) ==> 0 <= i0 <= i < tags.len()
            && match_at(tags[i].pattern, s, pos) == Some((l, a)),
    decreases tags.len() - i0,
{
    if 0 <= i0 < tags.len() {
        lemma_first_match_range(tags, i0 + 1, s, pos, cur);
    }
}

proof fn lemma_step(infos: Seq<TagInfoView>, s: Seq<char>, pos: int, stack: Seq<ScopeView>)
    requires
        clean_table(infos),
        stack_ok(stack, infos),
        stack.len() > 0,
        0 <= pos < s.len(),
    ensures
        opens_only_table_tags(step(spec_build(infos), s, pos, stack).2, infos),
        stack_ok(step(spec_build(infos), s, pos, stack).1, infos),
{
    let tags = spec_build(infos);
    let cur = stack.last().info;
    lemma_build_ok(infos);
    lemma_first_match_range(tags, 0, s, pos, cur);
    match first_match(tags, 0, s, pos, cur) {
        Some((i, len, arg)) => {
            let np = pos + len;
            assert(matcher_ok(tags[i], infos));
            match tags[i].match_type {
                MatchTypeView::Passthrough => {
                    lemma_plain_no_lt(s, pos);
                    lemma_no_lt_opens(s.subrange(pos, np), infos);
                },
                MatchTypeView::DirectReplace(t) => {
                    lemma_no_lt_opens(t, infos);
                },
                MatchTypeView::Open(info) => {
                    let sc = ScopeView { info, inner_start: np, has_arg: arg is Some };
                    let (st, closed) = add_scope_spec(stack, sc);
                    let j = choose|j: int| 0 <= j < infos.len() && #[trigger] infos[j] == info;
                    assert(info_clean(infos[j]));
                    assert(info_in(info, infos));
                    assert(stack_ok(st, infos)) by {
                        assert forall|k: int| 0 <= k < st.len() implies info_in(#[trigger] st[k].info, infos) by {
                            if k < stack.len() - 1 || (k < stack.len() && st == stack.push(sc)) {
                                assert(st[k] == stack[k]);
                            }
                        }
                    }
                    assert(stack_ok(closed, infos)) by {
                        assert forall|k: int| 0 <= k < closed.len() implies info_in(#[trigger] closed[k].info, infos) by {
                            assert(closed[k] == stack[stack.len() - 1]);
                        }
                    }
                    lemma_closes(closed, s, pos, infos);
                    let argtext = match arg {
                        Some((a, b)) => Some(s.subrange(a, b)),
                        None => None,
                    };
                    lemma_open_tag(info, argtext, j, infos);
                    lemma_concat(closes_text(closed, s, pos), open_tag_text(info, argtext), infos);
                },
                MatchTypeView::Close(info) => {
                    let (st, closed) = close_scope_spec(stack, info.tag);
                    lemma_last_with_tag(stack, info.tag, stack.len() as int);
                    assert(stack_ok(st, infos)) by {
                        assert forall|k: int| 0 <= k < st.len() implies info_in(#[trigger] st[k].info, infos) by {
                            match last_with_tag(stack, info.tag, stack.len() as int) {
                                Some(i) => assert(st[k] == stack.take(i)[k]),
                                None => {},
                            }
                        }
                    }
                    assert(stack_ok(closed, infos)) by {
                        assert forall|k: int| 0 <= k < closed.len() implies info_in(#[trigger] closed[k].info, infos) by {
                            match last_with_tag(stack, info.tag, stack.len() as int) {
                                Some(i) => {
                                    assert(closed[k] == stack.skip(i).reverse()[k]);
                                    assert(stack.skip(i).reverse()[k] == stack.skip(i)[stack.len() - i - 1 - k]);
                                    assert(closed[k] == stack[stack.len() - 1 - k]);
                                },
                                None => {},
                            }
                        }
                    }
                    lemma_closes(closed, s, pos, infos);
                },
            }
        },
        None => {
            if s[pos] == '<' {
                let pre = seq![MatchInfoView { pattern: PatternView::Plain, match_type: MatchTypeView::Passthrough }]
                    + html_escape_pairs().map_values(|p: (Seq<char>, Seq<char>)| escape_matcher(p));
                assert(tags[0] == pre[0]);
                assert(tags[1] == pre[1]);
                assert(s.subrange(pos, pos + 1) =~= seq!['<']);
                assert(first_match(tags, 0, s, pos, cur) == first_match(tags, 1, s, pos, cur));
                assert(first_match(tags, 1, s, pos, cur) is Some);
            }
            assert(no_lt(seq![s[pos]]));
            lemma_no_lt_opens(seq![s[pos]], infos);
        },
    }
}

proof fn lemma_run(infos: Seq<TagInfoView>, s: Seq<char>, pos: int, stack: Seq<ScopeView>)
    requires
        clean_table(infos),
        stack_ok(stack, infos),
    ensures
        opens_only_table_tags(run(spec_build(infos), s, pos, stack), infos),
    decreases s.len() - pos,
{
    let tags = spec_build(infos);
    if pos >= s.len() || pos < 0 {
        assert(stack_ok(stack.reverse(), infos)) by {
            assert forall|k: int| 0 <= k < stack.reverse().len() implies info_in(#[trigger] stack.reverse()[k].info, infos) by {
                assert(stack.reverse()[k] == stack[stack.len() - 1 - k]);
            }
        }
        lemma_closes(stack.reverse(), s, s.len() as int, infos);
    } else if stack.len() == 0 {
        lemma_no_lt_opens(Seq::<char>::empty(), infos);
    } else {
        let (np, st, out) = step(tags, s, pos, stack);
        lemma_step(infos, s, pos, stack);
        if np <= pos || np > s.len() {
            lemma_no_lt_opens(Seq::<char>::empty(), infos);
        } else {
            lemma_run(infos, s, np, st);
            lemma_concat(out, run(tags, s, np, st), infos);
        }
    }
}

/// Whatever the input, the html a translation produces opens and closes no element other
/// than those its tag table names: every `<` of the output begins `<outtag` or `</outtag` of
/// one of the table's tags. It holds for any table whose element names, attribute names and
/// raw extras hold no `<` of their own.
pub proof fn law_output_opens_only_table_tags(infos: Seq<TagInfoView>, s: Seq<char>)
    requires
        clean_table(infos),
    ensures
        opens_only_table_tags(translate(spec_build(infos), s), infos),
{
    let stack = seq![start_scope()];
    assert(stack_ok(stack, infos)) by {
        assert forall|k: int| 0 <= k < stack.len() implies info_in(#[trigger] stack[k].info, infos) by {
            assert(stack[k] == start_scope());
        }
    }
    lemma_run(infos, s, 0, stack);
}

/// The basic tags are clean, so the basic translator opens and closes only their elements.
pub proof fn law_basic_tags_are_clean()
    ensures
        clean_table(basic_tags()),
{
    let t = basic_tags();
    assert forall|j: int| 0 <= j < t.len() implies info_clean(#[trigger] t[j]) by {
        assert(no_lt(t[j].outtag));
        match t[j].rawextra {
            Some(r) => assert(no_lt(r)),
            None => {},
        }
        match t[j].tag_type {
            TagTypeView::DefaultArg(a) => assert(no_lt(a)),
            TagTypeView::SelfClosing(a) => assert(no_lt(a)),
            TagTypeView::DefinedArg(a) => assert(no_lt(a)),
            _ => {},
        }
    }
}

} // verus!
