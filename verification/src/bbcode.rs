//! A small bbcode to html translator.
//!
//! Rules of the translation:
//! - an early closing tag closes every tag opened after its own opening tag;
//! - opening a tag of the same kind as the innermost open tag closes that one first;
//! - closing tags that match no open tag are dropped;
//! - every tag still open at the end of the input is closed;
//! - whitespace is kept as it is;
//! - html special characters of the text are escaped.
use vstd::prelude::*;
use vstd::string::StringExecFns;

use crate::text::{push_char, push_range, chars_of, str_eq, encode_quoted_attribute, spec_encode_quoted_attribute};

verus! {

// ------------------------------
// *     TAG DEFINITIONS        *
// ------------------------------

/// How a tag behaves at the level of its arguments.
#[derive(Debug, Clone, Copy)]
pub enum TagType {
    /// The implicit outermost scope; there is only ever one of these.
    Start,
    /// Tags like `[b][/b]`: no argument, plain translation (the html name may differ).
    Simple,
    /// Tags that may carry an argument, which becomes the given html attribute.
    DefinedArg(&'static str),
    /// Tags without a closing html tag; the value fills the given attribute.
    SelfClosing(&'static str),
    /// The enclosed text gives the default for the attribute, unless an argument is given.
    DefaultArg(&'static str),
}

/// The definition of a bbcode tag.
#[derive(Debug, Clone, Copy)]
pub struct TagInfo {
    /// The bbcode name of the tag, such as "b" or "url" (matched literally).
    pub tag: &'static str,
    /// The html element to emit.
    pub outtag: &'static str,
    pub tag_type: TagType,
    /// Raw text put inside the opening html tag, unchecked.
    pub rawextra: Option<&'static str>,
}

/// How a matched block of the input moves into the output.
#[derive(Debug, Clone, Copy)]
pub enum MatchType {
    /// The matched text goes out as it is.
    Passthrough,
    /// An opening tag.
    Open(TagInfo),
    /// A closing tag.
    Close(TagInfo),
    /// The matched text is replaced by the given text.
    DirectReplace(&'static str),
}

/// What a block matcher recognises at the current position of the input.
#[derive(Debug, Clone, Copy)]
pub enum Pattern {
    /// A nonempty run of characters that mean nothing to bbcode or html
    /// (anything but `[ ] < > ' " & /`).
    Plain,
    /// Exactly the given (nonempty) text.
    Literal(&'static str),
    /// `[name]` or `[name=value]` for the given name; the argument is `=value`.
    OpenTag(&'static str),
    /// `[/name]` for the given name.
    CloseTag(&'static str),
}

/// A block level matcher: what to recognise and what to do with it.
#[derive(Debug, Clone, Copy)]
pub struct MatchInfo {
    pub pattern: Pattern,
    pub match_type: MatchType,
}

// ------------------------------
// *          VIEWS             *
// ------------------------------

pub enum TagTypeView {
    Start,
    Simple,
    DefinedArg(Seq<char>),
    SelfClosing(Seq<char>),
    DefaultArg(Seq<char>),
}

pub struct TagInfoView {
    pub tag: Seq<char>,
    pub outtag: Seq<char>,
    pub tag_type: TagTypeView,
    pub rawextra: Option<Seq<char>>,
}

pub enum MatchTypeView {
    Passthrough,
    Open(TagInfoView),
    Close(TagInfoView),
    DirectReplace(Seq<char>),
}

pub enum PatternView {
    Plain,
    Literal(Seq<char>),
    OpenTag(Seq<char>),
    CloseTag(Seq<char>),
}

pub struct MatchInfoView {
    pub pattern: PatternView,
    pub match_type: MatchTypeView,
}

pub struct ScopeView {
    pub info: TagInfoView,
    pub inner_start: int,
    pub has_arg: bool,
}

impl View for TagType {
    type V = TagTypeView;

    open spec fn view(&self) -> TagTypeView {
        match *self {
            TagType::Start => TagTypeView::Start,
            TagType::Simple => TagTypeView::Simple,
            TagType::DefinedArg(a) => TagTypeView::DefinedArg(a@),
            TagType::SelfClosing(a) => TagTypeView::SelfClosing(a@),
            TagType::DefaultArg(a) => TagTypeView::DefaultArg(a@),
        }
    }
}

impl View for TagInfo {
    type V = TagInfoView;

    open spec fn view(&self) -> TagInfoView {
        TagInfoView {
            tag: self.tag@,
            outtag: self.outtag@,
            tag_type: self.tag_type@,
            rawextra: match self.rawextra {
                Some(r) => Some(r@),
                None => None,
            },
        }
    }
}

impl View for MatchType {
    type V = MatchTypeView;

    open spec fn view(&self) -> MatchTypeView {
        match *self {
            MatchType::Passthrough => MatchTypeView::Passthrough,
            MatchType::Open(i) => MatchTypeView::Open(i@),
            MatchType::Close(i) => MatchTypeView::Close(i@),
            MatchType::DirectReplace(t) => MatchTypeView::DirectReplace(t@),
        }
    }
}

impl View for Pattern {
    type V = PatternView;

    open spec fn view(&self) -> PatternView {
        match *self {
            Pattern::Plain => PatternView::Plain,
            Pattern::Literal(t) => PatternView::Literal(t@),
            Pattern::OpenTag(t) => PatternView::OpenTag(t@),
            Pattern::CloseTag(t) => PatternView::CloseTag(t@),
        }
    }
}

impl View for MatchInfo {
    type V = MatchInfoView;

    open spec fn view(&self) -> MatchInfoView {
        MatchInfoView { pattern: self.pattern@, match_type: self.match_type@ }
    }
}

impl TagTypeView {
    /// Verbatim scopes let no other tag open or close inside them.
    pub open spec fn is_verbatim(self) -> bool {
        match self {
            TagTypeView::SelfClosing(_) => true,
            TagTypeView::DefaultArg(_) => true,
            _ => false,
        }
    }
}


// ------------------------------
// *     MATCHING (MODEL)       *
// ------------------------------

/// Characters that may pass straight through without any translation.
pub open spec fn is_plain(c: char) -> bool {
    c != '[' && c != ']' && c != '<' && c != '>' && c != '\'' && c != '"' && c != '&' && c != '/'
}

/// Length of the run of plain characters of `s` starting at `pos`.
pub open spec fn plain_len(s: Seq<char>, pos: int) -> int
    decreases s.len() - pos,
{
    if 0 <= pos < s.len() && is_plain(s[pos]) {
        1 + plain_len(s, pos + 1)
    } else {
        0
    }
}

/// `s` holds `p` starting at `pos`.
pub open spec fn has_at(s: Seq<char>, pos: int, p: Seq<char>) -> bool {
    0 <= pos && pos + p.len() <= s.len() && s.subrange(pos, pos + p.len()) == p
}

/// The first index at or after `from` where `s` holds `c`.
pub open spec fn find_from(s: Seq<char>, from: int, c: char) -> Option<int>
    decreases s.len() - from,
{
    if from < 0 || from >= s.len() {
        None
    } else if s[from] == c {
        Some(from)
    } else {
        find_from(s, from + 1, c)
    }
}

/// A match at a position: its length, and the range of its argument (`=value`) if any.
pub type MatchResult = Option<(int, Option<(int, int)>)>;

/// `[tag]` or `[tag=...]` at `pos`.
pub open spec fn open_tag_match(s: Seq<char>, pos: int, tag: Seq<char>) -> MatchResult {
    let q = pos + 1 + tag.len();
    if 0 <= pos < s.len() && s[pos] == '[' && has_at(s, pos + 1, tag) && q < s.len() {
        if s[q] == ']' {
            Some((q + 1 - pos, None))
        } else if s[q] == '=' {
            match find_from(s, q, ']') {
                Some(r) => Some((r + 1 - pos, Some((q, r)))),
                None => None,
            }
        } else {
            None
        }
    } else {
        None
    }
}

/// `[/tag]` at `pos`.
pub open spec fn close_tag_match(s: Seq<char>, pos: int, tag: Seq<char>) -> MatchResult {
    let q = pos + 2 + tag.len();
    if 0 <= pos && pos + 1 < s.len() && s[pos] == '[' && s[pos + 1] == '/' && has_at(s, pos + 2, tag)
        && q < s.len() && s[q] == ']' {
        Some((q + 1 - pos, None))
    } else {
        None
    }
}

/// What the pattern matches at `pos` of `s`.
pub open spec fn match_at(p: PatternView, s: Seq<char>, pos: int) -> MatchResult {
    match p {
        PatternView::Plain => {
            let k = plain_len(s, pos);
            if k > 0 {
                Some((k, None))
            } else {
                None
            }
        },
        PatternView::Literal(t) => {
            if t.len() > 0 && has_at(s, pos, t) {
                Some((t.len() as int, None))
            } else {
                None
            }
        },
        PatternView::OpenTag(t) => open_tag_match(s, pos, tag_pattern(t)),
        PatternView::CloseTag(t) => close_tag_match(s, pos, tag_pattern(t)),
    }
}

/// Inside a verbatim scope, only the scope's own tag may open or close.
pub open spec fn skipped_in(mt: MatchTypeView, cur: TagInfoView) -> bool {
    cur.tag_type.is_verbatim() && match mt {
        MatchTypeView::Open(i) => i.tag != cur.tag,
        MatchTypeView::Close(i) => i.tag != cur.tag,
        _ => false,
    }
}

/// The first matcher at or after index `i` that applies at `pos`: its index, length and argument.
pub open spec fn first_match(
    tags: Seq<MatchInfoView>,
    i: int,
    s: Seq<char>,
    pos: int,
    cur: TagInfoView,
) -> Option<(int, int, Option<(int, int)>)>
    decreases tags.len() - i,
{
    if i < 0 || i >= tags.len() {
        None
    } else if !skipped_in(tags[i].match_type, cur) && match_at(tags[i].pattern, s, pos) is Some {
        let (l, a) = match_at(tags[i].pattern, s, pos)->0;
        Some((i, l, a))
    } else {
        first_match(tags, i + 1, s, pos, cur)
    }
}

// ------------------------------
// *     OUTPUT (MODEL)         *
// ------------------------------

/// ` name="` followed, when a value is given, by the encoded value (without its `=`) and `"`.
pub open spec fn tag_arg(name: Seq<char>, val: Option<Seq<char>>) -> Seq<char> {
    seq![' '] + name + seq!['=', '"'] + match val {
        Some(v) => spec_encode_quoted_attribute(v.skip(1)) + seq!['"'],
        None => Seq::<char>::empty(),
    }
}

/// The html that opens a tag, given the text of its argument if it has one.
pub open spec fn open_tag_text(info: TagInfoView, arg: Option<Seq<char>>) -> Seq<char> {
    let head = seq!['<'] + info.outtag + match info.rawextra {
        Some(r) => seq![' '] + r,
        None => Seq::<char>::empty(),
    };
    head + match info.tag_type {
        TagTypeView::Start => Seq::<char>::empty(),
        TagTypeView::Simple => seq!['>'],
        TagTypeView::DefinedArg(a) => match arg {
            Some(_) => tag_arg(a, arg) + seq!['>'],
            None => seq!['>'],
        },
        TagTypeView::SelfClosing(a) => match arg {
            Some(_) => tag_arg(a, arg) + seq!['>'],
            None => tag_arg(a, None),
        },
        TagTypeView::DefaultArg(a) => match arg {
            Some(_) => tag_arg(a, arg) + seq!['>'],
            None => tag_arg(a, None),
        },
    }
}

/// `</outtag>`
pub open spec fn end_tag_text(info: TagInfoView) -> Seq<char> {
    seq!['<', '/'] + info.outtag + seq!['>']
}

/// The html escape of one character of text.
pub open spec fn escape_char(c: char) -> Seq<char> {
    if c == '<' {
        seq!['&', 'l', 't', ';']
    } else if c == '>' {
        seq!['&', 'g', 't', ';']
    } else if c == '&' {
        seq!['&', 'a', 'm', 'p', ';']
    } else if c == '"' {
        seq!['&', 'q', 'u', 'o', 't', ';']
    } else if c == '\'' {
        seq!['&', '#', '3', '9', ';']
    } else {
        seq![c]
    }
}

/// The html escape of a text: each character escaped on its own.
pub open spec fn escape_text(t: Seq<char>) -> Seq<char>
    decreases t.len(),
{
    if t.len() == 0 {
        Seq::<char>::empty()
    } else {
        escape_char(t[0]) + escape_text(t.drop_first())
    }
}

/// Escaping a text one character longer adds the escape of that character.
pub proof fn lemma_escape_text_push(t: Seq<char>, c: char)
    ensures
        escape_text(t.push(c)) == escape_text(t) + escape_char(c),
    decreases t.len(),
{
    if t.len() == 0 {
        assert(t.push(c).drop_first() =~= Seq::<char>::empty());
        assert(escape_text(t.push(c)) =~= escape_char(c) + escape_text(Seq::<char>::empty()));
    } else {
        assert(t.push(c).drop_first() =~= t.drop_first().push(c));
        lemma_escape_text_push(t.drop_first(), c);
        assert(escape_text(t.push(c)) =~= escape_char(t[0]) + escape_text(t.drop_first().push(c)));
    }
}

/// The html that closes a scope whose content ends at `end` of the input `s`.
pub open spec fn close_tag_text(sc: ScopeView, s: Seq<char>, end: int) -> Seq<char> {
    match sc.info.tag_type {
        TagTypeView::SelfClosing(_) => if !sc.has_arg {
            seq!['"', '>']
        } else {
            Seq::<char>::empty()
        },
        TagTypeView::DefaultArg(_) => if sc.has_arg {
            end_tag_text(sc.info)
        } else {
            seq!['"', '>'] + escape_text(s.subrange(sc.inner_start, end)) + end_tag_text(sc.info)
        },
        TagTypeView::Start => Seq::<char>::empty(),
        _ => end_tag_text(sc.info),
    }
}

/// The html closing the given scopes, in the given order.
pub open spec fn closes_text(scs: Seq<ScopeView>, s: Seq<char>, end: int) -> Seq<char>
    decreases scs.len(),
{
    if scs.len() == 0 {
        Seq::<char>::empty()
    } else {
        closes_text(scs.drop_last(), s, end) + close_tag_text(scs.last(), s, end)
    }
}

// ------------------------------
// *     SCOPES (MODEL)         *
// ------------------------------

/// Pushing a scope: a scope of the same tag on top is closed first.
/// Gives the new stack and the closed scopes in display order.
pub open spec fn add_scope_spec(stack: Seq<ScopeView>, sc: ScopeView) -> (Seq<ScopeView>, Seq<ScopeView>) {
    if stack.len() > 0 && stack.last().info.tag == sc.info.tag {
        (stack.drop_last().push(sc), seq![stack.last()])
    } else {
        (stack.push(sc), Seq::<ScopeView>::empty())
    }
}

/// The highest index below `k` whose scope has the given tag.
pub open spec fn last_with_tag(stack: Seq<ScopeView>, tag: Seq<char>, k: int) -> Option<int>
    decreases k,
{
    if k <= 0 {
        None
    } else if stack[k - 1].info.tag == tag {
        Some(k - 1)
    } else {
        last_with_tag(stack, tag, k - 1)
    }
}

pub proof fn lemma_last_with_tag(stack: Seq<ScopeView>, tag: Seq<char>, k: int)
    ensures
        last_with_tag(stack, tag, k) matches Some(i) ==> 0 <= i < k && stack[i].info.tag == tag,
        last_with_tag(stack, tag, k) is None ==> forall|i: int| 0 <= i < k ==> #[trigger] stack[i].info.tag != tag,
    decreases k,
{
    if k > 0 {
        lemma_last_with_tag(stack, tag, k - 1);
    }
}

/// Closing a tag: every scope from the innermost one with that tag up to the top is closed.
/// Gives the new stack and the closed scopes in display order (innermost first).
pub open spec fn close_scope_spec(stack: Seq<ScopeView>, tag: Seq<char>) -> (Seq<ScopeView>, Seq<ScopeView>) {
    match last_with_tag(stack, tag, stack.len() as int) {
        Some(i) => (stack.take(i), stack.skip(i).reverse()),
        None => (stack, Seq::<ScopeView>::empty()),
    }
}

/// The outermost scope every translation starts in.
pub open spec fn start_scope() -> ScopeView {
    ScopeView {
        info: TagInfoView {
            tag: Seq::<char>::empty(),
            outtag: Seq::<char>::empty(),
            tag_type: TagTypeView::Start,
            rawextra: None,
        },
        inner_start: 0,
        has_arg: false,
    }
}

// ------------------------------
// *     TRANSLATION (MODEL)    *
// ------------------------------

/// One step of the translation at `pos` (with at least one scope open):
/// the next position, the new scope stack and the html emitted.
pub open spec fn step(tags: Seq<MatchInfoView>, s: Seq<char>, pos: int, stack: Seq<ScopeView>) -> (
    int,
    Seq<ScopeView>,
    Seq<char>,
) {
    match first_match(tags, 0, s, pos, stack.last().info) {
        Some((i, len, arg)) => {
            let np = pos + len;
            match tags[i].match_type {
                MatchTypeView::Passthrough => (np, stack, s.subrange(pos, np)),
                MatchTypeView::DirectReplace(t) => (np, stack, t),
                MatchTypeView::Open(info) => {
                    let sc = ScopeView { info, inner_start: np, has_arg: arg is Some };
                    let (st, closed) = add_scope_spec(stack, sc);
                    let argtext = match arg {
                        Some((a, b)) => Some(s.subrange(a, b)),
                        None => None,
                    };
                    (np, st, closes_text(closed, s, pos) + open_tag_text(info, argtext))
                },
                MatchTypeView::Close(info) => {
                    let (st, closed) = close_scope_spec(stack, info.tag);
                    (np, st, closes_text(closed, s, pos))
                },
            }
        },
        None => (pos + 1, stack, seq![s[pos]]),
    }
}

/// The html produced from position `pos` on, with the given scopes open.
pub open spec fn run(tags: Seq<MatchInfoView>, s: Seq<char>, pos: int, stack: Seq<ScopeView>) -> Seq<char>
    decreases s.len() - pos,
{
    if pos >= s.len() || pos < 0 {
        closes_text(stack.reverse(), s, s.len() as int)
    } else if stack.len() == 0 {
        Seq::<char>::empty()
    } else {
        let (np, st, out) = step(tags, s, pos, stack);
        if np <= pos || np > s.len() {
            Seq::<char>::empty()
        } else {
            out + run(tags, s, np, st)
        }
    }
}

/// The html translation of `s` by the given matchers.
pub open spec fn translate(tags: Seq<MatchInfoView>, s: Seq<char>) -> Seq<char> {
    run(tags, s, 0, seq![start_scope()])
}


// ------------------------------
// *     MATCHING (CODE)        *
// ------------------------------

/// The text a pattern is built from (nothing for `Plain`).
pub open spec fn pattern_text(p: PatternView) -> Seq<char> {
    match p {
        PatternView::Plain => Seq::<char>::empty(),
        PatternView::Literal(t) => t,
        PatternView::OpenTag(t) => tag_pattern(t),
        PatternView::CloseTag(t) => tag_pattern(t),
    }
}

/// The text a tag name matches: a backslash takes the character after it literally (so
/// `\*` matches `*`); a backslash at the very end stands for itself.
pub open spec fn tag_pattern(t: Seq<char>) -> Seq<char>
    decreases t.len(),
{
    if t.len() == 0 {
        Seq::<char>::empty()
    } else if t[0] == '\\' && t.len() > 1 {
        seq![t[1]] + tag_pattern(t.skip(2))
    } else {
        seq![t[0]] + tag_pattern(t.drop_first())
    }
}

/// The characters a tag name matches.
fn tag_pattern_chars(t: &str) -> (r: Vec<char>)
    ensures
        r@ == tag_pattern(t@),
{
    let v = chars_of(t);
    let mut r: Vec<char> = Vec::new();
    let mut i: usize = 0;
    assert(v@.skip(0) =~= v@);
    while i < v.len()
        invariant
            i <= v@.len(),
            v@ == t@,
            r@ + tag_pattern(v@.skip(i as int)) == tag_pattern(v@),
        decreases v@.len() - i,
    {
        let ghost rest = v@.skip(i as int);
        if v[i] == '\\' && i + 1 < v.len() {
            assert(rest[0] == v@[i as int] && rest[1] == v@[i + 1]);
            assert(rest.skip(2) =~= v@.skip(i + 2));
            assert(r@.push(v@[i + 1]) + tag_pattern(v@.skip(i + 2)) =~= r@ + (seq![v@[i + 1]] + tag_pattern(rest.skip(2))));
            r.push(v[i + 1]);
            i = i + 2;
        } else {
            assert(rest[0] == v@[i as int]);
            assert(rest.drop_first() =~= v@.skip(i + 1));
            assert(r@.push(v@[i as int]) + tag_pattern(v@.skip(i + 1)) =~= r@ + (seq![v@[i as int]] + tag_pattern(rest.drop_first())));
            r.push(v[i]);
            i = i + 1;
        }
    }
    assert(v@.skip(i as int) =~= Seq::<char>::empty());
    assert(r@ + Seq::<char>::empty() =~= r@);
    r
}

/// A match found by the code, seen as a model match.
pub open spec fn match_view(r: Option<(usize, Option<(usize, usize)>)>) -> MatchResult {
    match r {
        Some((l, a)) => Some((
            l as int,
            match a {
                Some((x, y)) => Some((x as int, y as int)),
                None => None,
            },
        )),
        None => None,
    }
}

fn is_plain_char(c: char) -> (r: bool)
    ensures
        r == is_plain(c),
{
    c != '[' && c != ']' && c != '<' && c != '>' && c != '\'' && c != '"' && c != '&' && c != '/'
}

proof fn lemma_plain_len_bounds(s: Seq<char>, pos: int)
    requires
        0 <= pos <= s.len(),
    ensures
        0 <= plain_len(s, pos) <= s.len() - pos,
    decreases s.len() - pos,
{
    if pos < s.len() && is_plain(s[pos]) {
        lemma_plain_len_bounds(s, pos + 1);
    }
}

fn plain_run(s: &Vec<char>, pos: usize) -> (k: usize)
    requires
        pos <= s@.len(),
    ensures
        k == plain_len(s@, pos as int),
        pos + k <= s@.len(),
{
    let mut k: usize = 0;
    let n = s.len();
    proof {
        lemma_plain_len_bounds(s@, pos as int);
    }
    while pos + k < n && is_plain_char(s[pos + k])
        invariant
            n == s@.len(),
            pos + k <= s@.len(),
            plain_len(s@, pos as int) == k + plain_len(s@, pos + k),
        decreases s@.len() - pos - k,
    {
        k = k + 1;
    }
    k
}

fn has_at_exec(s: &Vec<char>, pos: usize, p: &Vec<char>) -> (r: bool)
    ensures
        r == has_at(s@, pos as int, p@),
{
    if pos > s.len() || p.len() > s.len() - pos {
        return false;
    }
    let mut j: usize = 0;
    let n = s.len();
    while j < p.len()
        invariant
            n == s@.len(),
            pos + p@.len() <= s@.len(),
            j <= p@.len(),
            forall|i: int| 0 <= i < j ==> s@[pos + i] == p@[i],
        decreases p@.len() - j,
    {
        if s[pos + j] != p[j] {
            assert(s@.subrange(pos as int, pos + p@.len())[j as int] != p@[j as int]);
            return false;
        }
        j = j + 1;
    }
    assert(s@.subrange(pos as int, pos + p@.len()) =~= p@);
    true
}

fn find_from_exec(s: &Vec<char>, from: usize, c: char) -> (r: Option<usize>)
    ensures
        match r {
            Some(x) => find_from(s@, from as int, c) == Some(x as int) && from <= x < s@.len(),
            None => find_from(s@, from as int, c) is None,
        },
{
    let mut i = from;
    while i < s.len()
        invariant
            from <= i,
            find_from(s@, from as int, c) == find_from(s@, i as int, c),
        decreases s@.len() - i,
    {
        if s[i] == c {
            return Some(i);
        }
        i = i + 1;
    }
    None
}

fn match_at_exec(pat: &Pattern, pchars: &Vec<char>, s: &Vec<char>, pos: usize) -> (r: Option<(usize, Option<(usize, usize)>)>)
    requires
        pos < s@.len(),
        pchars@ == pattern_text(pat@),
    ensures
        match_view(r) == match_at(pat@, s@, pos as int),
        r matches Some((l, _)) ==> 0 < l && pos + l <= s@.len(),
        r matches Some((l, Some((x, y)))) ==> pos <= x < y < pos + l,
{
    let n = s.len();
    match pat {
        Pattern::Plain => {
            let k = plain_run(s, pos);
            if k > 0 {
                Some((k, None))
            } else {
                None
            }
        },
        Pattern::Literal(_) => {
            if pchars.len() > 0 && has_at_exec(s, pos, pchars) {
                Some((pchars.len(), None))
            } else {
                None
            }
        },
        Pattern::OpenTag(_) => {
            if s[pos] != '[' || !has_at_exec(s, pos + 1, pchars) {
                return None;
            }
            let q = pos + 1 + pchars.len();
            if q >= s.len() {
                return None;
            }
            if s[q] == ']' {
                Some((q + 1 - pos, None))
            } else if s[q] == '=' {
                match find_from_exec(s, q + 1, ']') {
                    Some(r) => Some((r + 1 - pos, Some((q, r)))),
                    None => None,
                }
            } else {
                None
            }
        },
        Pattern::CloseTag(_) => {
            if pos + 1 >= s.len() || s[pos] != '[' || s[pos + 1] != '/' || !has_at_exec(s, pos + 2, pchars) {
                return None;
            }
            let q = pos + 2 + pchars.len();
            if q < s.len() && s[q] == ']' {
                Some((q + 1 - pos, None))
            } else {
                None
            }
        },
    }
}


// ------------------------------
// *          SCOPES            *
// ------------------------------

/// An open bbcode tag. Scopes are opened and closed as tags are, and kept on a stack
/// so that tags left open can be closed automatically.
#[derive(Debug, Clone, Copy)]
pub struct BBScope {
    pub info: TagInfo,
    /// Position (in characters) of the input where the inside of the tag begins.
    pub inner_start: usize,
    /// Whether the opening tag carried an argument.
    pub has_arg: bool,
}

impl View for BBScope {
    type V = ScopeView;

    open spec fn view(&self) -> ScopeView {
        ScopeView { info: self.info@, inner_start: self.inner_start as int, has_arg: self.has_arg }
    }
}

/// Every scope of the stack began at or before `p`.
pub open spec fn all_start_before(st: Seq<ScopeView>, p: int) -> bool {
    forall|j: int| 0 <= j < st.len() ==> #[trigger] st[j].inner_start <= p
}

pub open spec fn scopes_view(v: Seq<BBScope>) -> Seq<ScopeView> {
    v.map_values(|sc: BBScope| sc@)
}

/// The stack of open scopes. It knows nothing of bbcode itself, only how scopes
/// are pushed and popped.
pub struct BBScoper {
    pub scopes: Vec<BBScope>,
}

impl BBScoper {
    /// The open scopes, outermost first.
    pub open spec fn stack(&self) -> Seq<ScopeView> {
        scopes_view(self.scopes@)
    }

    pub fn new() -> (r: Self)
        ensures
            r.stack() == Seq::<ScopeView>::empty(),
    {
        let r = BBScoper { scopes: Vec::new() };
        assert(r.stack() =~= Seq::<ScopeView>::empty());
        r
    }

    /// Add a scope, which closes the innermost scope first when it has the same tag.
    /// Gives the added scope and the closed scopes in display order.
    pub fn add_scope(&mut self, scope: BBScope) -> (r: (BBScope, Vec<BBScope>))
        ensures
            r.0 == scope,
            final(self).stack() == add_scope_spec(old(self).stack(), scope@).0,
            scopes_view(r.1@) == add_scope_spec(old(self).stack(), scope@).1,
    {
        let ghost old_stack = self.stack();
        let mut result: Vec<BBScope> = Vec::new();
        let n = self.scopes.len();
        if n > 0 && str_eq(self.scopes[n - 1].info.tag, scope.info.tag) {
            let top = self.scopes.pop().unwrap();
            result.push(top);
            assert(self.stack() =~= old_stack.drop_last());
            assert(scopes_view(result@) =~= seq![old_stack.last()]);
        } else {
            assert(scopes_view(result@) =~= Seq::<ScopeView>::empty());
        }
        let ghost mid = self.stack();
        self.scopes.push(scope);
        assert(self.stack() =~= mid.push(scope@));
        (scope, result)
    }

    /// Close the innermost scope with the tag of `info`, together with every scope opened
    /// after it. Gives the closed scopes in display order; nothing when no scope has the tag.
    pub fn close_scope(&mut self, info: &TagInfo) -> (r: Vec<BBScope>)
        ensures
            final(self).stack() == close_scope_spec(old(self).stack(), info@.tag).0,
            scopes_view(r@) == close_scope_spec(old(self).stack(), info@.tag).1,
            final(self).scopes@ == old(self).scopes@.take(final(self).scopes@.len() as int),
    {
        let ghost old_scopes = self.scopes@;
        let ghost old_stack = self.stack();
        let n = self.scopes.len();
        let mut k = n;
        let mut found = false;
        while k > 0
            invariant_except_break
                !found,
            invariant
                k <= n == self.scopes@.len(),
                self.scopes@ == old_scopes,
                old_stack == scopes_view(old_scopes),
                last_with_tag(old_stack, info@.tag, n as int) == last_with_tag(old_stack, info@.tag, k as int),
            ensures
                k <= n == self.scopes@.len(),
                self.scopes@ == old_scopes,
                last_with_tag(old_stack, info@.tag, n as int) == last_with_tag(old_stack, info@.tag, k as int),
                found ==> k > 0 && old_stack[k - 1].info.tag == info@.tag,
                !found ==> k == 0,
            decreases k,
        {
            if str_eq(self.scopes[k - 1].info.tag, info.tag) {
                assert(old_stack[k - 1].info.tag == self.scopes@[k - 1].info.tag@);
                found = true;
                break;
            }
            k = k - 1;
        }
        let mut result: Vec<BBScope> = Vec::new();
        if !found {
            assert(last_with_tag(old_stack, info@.tag, k as int) is None);
            assert(scopes_view(result@) =~= Seq::<ScopeView>::empty());
            assert(self.scopes@.take(n as int) =~= self.scopes@);
            return result;
        }
        let idx = k - 1;
        assert(last_with_tag(old_stack, info@.tag, n as int) == Some(idx as int));
        while self.scopes.len() > idx
            invariant
                idx < n == old_scopes.len(),
                idx <= self.scopes@.len() <= n,
                self.scopes@ == old_scopes.take(self.scopes@.len() as int),
                result@ == old_scopes.skip(self.scopes@.len() as int).reverse(),
            decreases self.scopes@.len(),
        {
            let ghost len = self.scopes@.len();
            let sc = self.scopes.pop().unwrap();
            result.push(sc);
            assert(self.scopes@ =~= old_scopes.take(len - 1));
            assert(result@ =~= old_scopes.skip(len - 1).reverse());
        }
        assert(self.stack() =~= old_stack.take(idx as int));
        assert(scopes_view(result@) =~= old_stack.skip(idx as int).reverse());
        result
    }

    /// Consume the stack, giving the remaining scopes innermost first (the order to close them in).
    pub fn dump_remaining(self) -> (r: Vec<BBScope>)
        ensures
            scopes_view(r@) == self.stack().reverse(),
    {
        let mut scopes = self.scopes;
        let ghost all = scopes@;
        let mut result: Vec<BBScope> = Vec::new();
        while scopes.len() > 0
            invariant
                scopes@ == all.take(scopes@.len() as int),
                scopes@.len() <= all.len(),
                result@ == all.skip(scopes@.len() as int).reverse(),
            decreases scopes@.len(),
        {
            let ghost len = scopes@.len();
            let sc = scopes.pop().unwrap();
            result.push(sc);
            assert(scopes@ =~= all.take(len - 1));
            assert(result@ =~= all.skip(len - 1).reverse());
        }
        assert(all.skip(0) =~= all);
        assert(scopes_view(result@) =~= scopes_view(all).reverse());
        result
    }
}


// ------------------------------
// *     OUTPUT (CODE)          *
// ------------------------------

/// An argument range found by the code, seen as a model range.
pub open spec fn arg_view(arg: Option<(usize, usize)>) -> Option<(int, int)> {
    match arg {
        Some((a, b)) => Some((a as int, b as int)),
        None => None,
    }
}

/// The text of an argument range of the input.
pub open spec fn arg_text(s: Seq<char>, arg: Option<(int, int)>) -> Option<Seq<char>> {
    match arg {
        Some((a, b)) => Some(s.subrange(a, b)),
        None => None,
    }
}

fn append_str(mut result: String, t: &str) -> (r: String)
    ensures
        r@ == result@ + t@,
{
    result.append(t);
    result
}

fn append_char(mut result: String, c: char) -> (r: String)
    ensures
        r@ == result@.push(c),
{
    push_char(&mut result, c);
    result
}

/// Push ` argname="` and, when an argument is given, its encoded value (without the `=`) and `"`.
fn push_tagarg(result: String, argname: &str, arg: Option<(usize, usize)>, s: &Vec<char>) -> (r: String)
    requires
        arg matches Some((a, b)) ==> a < b <= s@.len(),
    ensures
        r@ == result@ + tag_arg(argname@, arg_text(s@, arg_view(arg))),
{
    let ghost start = result@;
    let mut result = append_char(result, ' ');
    result = append_str(result, argname);
    result = append_char(result, '=');
    result = append_char(result, '"');
    assert(result@ =~= start + (seq![' '] + argname@ + seq!['=', '"']));
    match arg {
        Some((a, b)) => {
            let raw = push_range(String::new(), s, a + 1, b);
            let enc = encode_quoted_attribute(raw.as_str());
            result = append_str(result, enc.as_str());
            result = append_char(result, '"');
            assert(s@.subrange(a as int, b as int).skip(1) =~= s@.subrange(a + 1, b as int));
            assert(raw@ =~= s@.subrange(a + 1, b as int));
            assert(result@ =~= start + tag_arg(argname@, arg_text(s@, arg_view(arg))));
        },
        None => {
            assert(result@ =~= start + tag_arg(argname@, arg_text(s@, arg_view(arg))));
        },
    }
    result
}

/// Push the html opening the tag of `scope`.
fn push_open_tag(result: String, scope: &BBScope, arg: Option<(usize, usize)>, s: &Vec<char>) -> (r: String)
    requires
        arg matches Some((a, b)) ==> a < b <= s@.len(),
    ensures
        r@ == result@ + open_tag_text(scope.info@, arg_text(s@, arg_view(arg))),
{
    let ghost start = result@;
    let ghost info = scope.info@;
    let mut result = append_char(result, '<');
    result = append_str(result, scope.info.outtag);
    if let Some(rawextra) = scope.info.rawextra {
        result = append_char(result, ' ');
        result = append_str(result, rawextra);
    }
    let ghost head = result@;
    assert(head =~= start + (seq!['<'] + info.outtag + match info.rawextra {
        Some(r) => seq![' '] + r,
        None => Seq::<char>::empty(),
    }));
    match scope.info.tag_type {
        TagType::Start => {},
        TagType::Simple => {
            result = append_char(result, '>');
        },
        TagType::DefinedArg(argname) => {
            if arg.is_some() {
                result = push_tagarg(result, argname, arg, s);
            }
            result = append_char(result, '>');
        },
        TagType::SelfClosing(argname) => {
            if arg.is_some() {
                result = push_tagarg(result, argname, arg, s);
                result = append_char(result, '>');
            } else {
                result = push_tagarg(result, argname, None, s);
            }
        },
        TagType::DefaultArg(argname) => {
            if arg.is_some() {
                result = push_tagarg(result, argname, arg, s);
                result = append_char(result, '>');
            } else {
                result = push_tagarg(result, argname, None, s);
            }
        },
    }
    assert(result@ =~= start + open_tag_text(info, arg_text(s@, arg_view(arg))));
    result
}

/// Push `</outtag>`.
fn push_just_close_tag(result: String, info: &TagInfo) -> (r: String)
    ensures
        r@ == result@ + end_tag_text(info@),
{
    let ghost start = result@;
    let mut result = append_char(result, '<');
    result = append_char(result, '/');
    result = append_str(result, info.outtag);
    result = append_char(result, '>');
    assert(result@ =~= start + end_tag_text(info@));
    result
}

/// Push the html escape of one character.
fn push_escaped_char(result: String, c: char) -> (r: String)
    ensures
        r@ == result@ + escape_char(c),
{
    let ghost start = result@;
    let mut result = result;
    if c == '<' {
        result = append_char(result, '&');
        result = append_char(result, 'l');
        result = append_char(result, 't');
        result = append_char(result, ';');
    } else if c == '>' {
        result = append_char(result, '&');
        result = append_char(result, 'g');
        result = append_char(result, 't');
        result = append_char(result, ';');
    } else if c == '&' {
        result = append_char(result, '&');
        result = append_char(result, 'a');
        result = append_char(result, 'm');
        result = append_char(result, 'p');
        result = append_char(result, ';');
    } else if c == '"' {
        result = append_char(result, '&');
        result = append_char(result, 'q');
        result = append_char(result, 'u');
        result = append_char(result, 'o');
        result = append_char(result, 't');
        result = append_char(result, ';');
    } else if c == '\'' {
        result = append_char(result, '&');
        result = append_char(result, '#');
        result = append_char(result, '3');
        result = append_char(result, '9');
        result = append_char(result, ';');
    } else {
        result = append_char(result, c);
    }
    assert(result@ =~= start + escape_char(c));
    result
}

/// Push the html escape of the characters of `s` from `lo` up to `hi`.
fn push_escaped_range(result: String, s: &Vec<char>, lo: usize, hi: usize) -> (r: String)
    requires
        lo <= hi <= s@.len(),
    ensures
        r@ == result@ + escape_text(s@.subrange(lo as int, hi as int)),
{
    let ghost start = result@;
    let mut result = result;
    let mut i = lo;
    assert(s@.subrange(lo as int, lo as int) =~= Seq::<char>::empty());
    while i < hi
        invariant
            lo <= i <= hi <= s@.len(),
            result@ == start + escape_text(s@.subrange(lo as int, i as int)),
        decreases hi - i,
    {
        proof {
            lemma_escape_text_push(s@.subrange(lo as int, i as int), s@[i as int]);
            assert(s@.subrange(lo as int, i + 1) =~= s@.subrange(lo as int, i as int).push(s@[i as int]));
        }
        result = push_escaped_char(result, s[i]);
        i = i + 1;
    }
    result
}

/// Push the html closing `scope`, whose content ends at `end` of the input.
fn push_close_tag(result: String, scope: &BBScope, s: &Vec<char>, end: usize) -> (r: String)
    requires
        scope.inner_start <= end <= s@.len(),
    ensures
        r@ == result@ + close_tag_text(scope@, s@, end as int),
{
    let ghost start = result@;
    let mut result = result;
    match scope.info.tag_type {
        TagType::SelfClosing(_) => {
            if !scope.has_arg {
                result = append_char(result, '"');
                result = append_char(result, '>');
            }
        },
        TagType::DefaultArg(_) => {
            if scope.has_arg {
                result = push_just_close_tag(result, &scope.info);
            } else {
                result = append_char(result, '"');
                result = append_char(result, '>');
                result = push_escaped_range(result, s, scope.inner_start, end);
                result = push_just_close_tag(result, &scope.info);
            }
        },
        TagType::Start => {},
        _ => {
            result = push_just_close_tag(result, &scope.info);
        },
    }
    assert(result@ =~= start + close_tag_text(scope@, s@, end as int));
    result
}

/// Push the html closing each of `scopes`, in order.
fn push_close_tags(result: String, scopes: &Vec<BBScope>, s: &Vec<char>, end: usize) -> (r: String)
    requires
        end <= s@.len(),
        all_start_before(scopes_view(scopes@), end as int),
    ensures
        r@ == result@ + closes_text(scopes_view(scopes@), s@, end as int),
{
    let ghost start = result@;
    let ghost all = scopes_view(scopes@);
    let mut result = result;
    let mut i: usize = 0;
    while i < scopes.len()
        invariant
            i <= scopes@.len(),
            end <= s@.len(),
            all == scopes_view(scopes@),
            all_start_before(all, end as int),
            result@ == start + closes_text(all.take(i as int), s@, end as int),
        decreases scopes@.len() - i,
    {
        assert(all[i as int] == scopes@[i as int]@);
        assert(all[i as int].inner_start <= end);
        result = push_close_tag(result, &scopes[i], s, end);
        assert(all.take(i as int + 1).drop_last() =~= all.take(i as int));
        assert(all.take(i as int + 1).last() == scopes@[i as int]@);
        i = i + 1;
    }
    assert(all.take(scopes@.len() as int) =~= all);
    result
}


// ------------------------------
// *     MAIN FUNCTIONALITY     *
// ------------------------------

impl TagType {
    /// Verbatim tags (self closing and default argument tags) keep other tags out of their inside.
    pub fn is_verbatim(&self) -> (r: bool)
        ensures
            r == self@.is_verbatim(),
    {
        match self {
            TagType::Start => false,
            TagType::Simple => false,
            TagType::DefinedArg(_) => false,
            TagType::SelfClosing(_) => true,
            TagType::DefaultArg(_) => true,
        }
    }
}

impl TagInfo {
    /// A simple tag whose html element has the same name.
    pub fn simple(tag: &'static str) -> (r: TagInfo)
        ensures
            r.tag == tag,
            r.outtag == tag,
            r@.tag_type == TagTypeView::Simple,
            r.rawextra is None,
    {
        TagInfo { tag, outtag: tag, tag_type: TagType::Simple, rawextra: None }
    }

    /// The tag of the outermost scope.
    pub fn start() -> (r: TagInfo)
        ensures
            r@ == start_scope().info,
    {
        let r = TagInfo { tag: "", outtag: "", tag_type: TagType::Start, rawextra: None };
        proof {
            reveal_strlit("");
        }
        assert(r@.tag =~= Seq::<char>::empty());
        r
    }
}

/// The bbcode translator: the list of block matchers, tried in order.
pub struct BBCode {
    pub tags: Vec<MatchInfo>,
}

impl View for BBCode {
    type V = Seq<MatchInfoView>;

    open spec fn view(&self) -> Seq<MatchInfoView> {
        self.tags@.map_values(|m: MatchInfo| m@)
    }
}

/// The matcher found by the code, seen as a model match.
pub open spec fn found_view(r: Option<(usize, usize, Option<(usize, usize)>)>) -> Option<(int, int, Option<(int, int)>)> {
    match r {
        Some((i, l, a)) => Some((i as int, l as int, arg_view(a))),
        None => None,
    }
}

impl BBCode {
    /// The text each matcher's pattern is built from, as characters.
    fn pattern_chars(&self) -> (r: Vec<Vec<char>>)
        ensures
            r@.len() == self.tags@.len(),
            forall|i: int| 0 <= i < r@.len() ==> #[trigger] r@[i]@ == pattern_text(self.tags@[i].pattern@),
    {
        let mut r: Vec<Vec<char>> = Vec::new();
        let mut i: usize = 0;
        while i < self.tags.len()
            invariant
                i <= self.tags@.len(),
                r@.len() == i,
                forall|j: int| 0 <= j < i ==> #[trigger] r@[j]@ == pattern_text(self.tags@[j].pattern@),
            decreases self.tags@.len() - i,
        {
            let v = match self.tags[i].pattern {
                Pattern::Plain => Vec::new(),
                Pattern::Literal(t) => chars_of(t),
                Pattern::OpenTag(t) => tag_pattern_chars(t),
                Pattern::CloseTag(t) => tag_pattern_chars(t),
            };
            r.push(v);
            i = i + 1;
        }
        r
    }

    /// Find the first matcher that applies at `pos` inside a scope of tag `cur`.
    fn find_match(&self, pats: &Vec<Vec<char>>, s: &Vec<char>, pos: usize, cur: &TagInfo) -> (r: Option<(usize, usize, Option<(usize, usize)>)>)
        requires
            pos < s@.len(),
            pats@.len() == self.tags@.len(),
            forall|i: int| 0 <= i < pats@.len() ==> #[trigger] pats@[i]@ == pattern_text(self.tags@[i].pattern@),
        ensures
            found_view(r) == first_match(self@, 0, s@, pos as int, cur@),
            r matches Some((i, l, a)) ==> i < self.tags@.len() && 0 < l && pos + l <= s@.len() && match a {
                Some((x, y)) => pos <= x < y < pos + l,
                None => true,
            },
    {
        let verbatim = cur.tag_type.is_verbatim();
        let mut i: usize = 0;
        while i < self.tags.len()
            invariant
                i <= self.tags@.len(),
                pos < s@.len(),
                verbatim == cur@.tag_type.is_verbatim(),
                pats@.len() == self.tags@.len(),
                forall|j: int| 0 <= j < pats@.len() ==> #[trigger] pats@[j]@ == pattern_text(self.tags@[j].pattern@),
                first_match(self@, 0, s@, pos as int, cur@) == first_match(self@, i as int, s@, pos as int, cur@),
            decreases self.tags@.len() - i,
        {
            let tagdo = &self.tags[i];
            assert(self@[i as int] == tagdo@);
            let skip = verbatim && match tagdo.match_type {
                MatchType::Open(doinfo) => !str_eq(doinfo.tag, cur.tag),
                MatchType::Close(doinfo) => !str_eq(doinfo.tag, cur.tag),
                _ => false,
            };
            assert(skip == skipped_in(self@[i as int].match_type, cur@));
            if !skip {
                let m = match_at_exec(&tagdo.pattern, &pats[i], s, pos);
                if let Some((l, a)) = m {
                    return Some((i, l, a));
                }
            }
            i = i + 1;
        }
        None
    }

    /// Translate bbcode into html. The text between tags is html escaped; whitespace is kept as is.
    pub fn parse(&self, input: &str) -> (r: String)
        ensures
            r@ == translate(self@, input@),
    {
        let s = chars_of(input);
        let n = s.len();
        let pats = self.pattern_chars();
        let mut result = String::new();

        let mut scoper = BBScoper::new();
        let start_info = TagInfo::start();
        let _ = scoper.add_scope(BBScope { info: start_info, inner_start: 0, has_arg: false });
        assert(scoper.stack() =~= seq![start_scope()]);
        let mut pos: usize = 0;
        assert(all_start_before(scoper.stack(), 0));

        while pos < n && scoper.scopes.len() > 0
            invariant
                n == s@.len(),
                s@ == input@,
                pos <= n,
                pats@.len() == self.tags@.len(),
                forall|j: int| 0 <= j < pats@.len() ==> #[trigger] pats@[j]@ == pattern_text(self.tags@[j].pattern@),
                all_start_before(scoper.stack(), pos as int),
                translate(self@, s@) == result@ + run(self@, s@, pos as int, scoper.stack()),
            decreases n - pos,
        {
            let ghost stack = scoper.stack();
            let ghost before = result@;
            let cur = scoper.scopes[scoper.scopes.len() - 1].info;
            assert(stack.last().info == cur@);
            let found = self.find_match(&pats, &s, pos, &cur);
            let ghost (gnp, gst, gout) = step(self@, s@, pos as int, stack);
            match found {
                Some((i, len, arg)) => {
                    let np = pos + len;
                    let tagdo = &self.tags[i];
                    assert(self@[i as int] == tagdo@);
                    match tagdo.match_type {
                        MatchType::Passthrough => {
                            result = push_range(result, &s, pos, np);
                        },
                        MatchType::DirectReplace(t) => {
                            result = append_str(result, t);
                        },
                        MatchType::Open(info) => {
                            let sc = BBScope { info, inner_start: np, has_arg: arg.is_some() };
                            let (added, closed) = scoper.add_scope(sc);
                            assert(all_start_before(scopes_view(closed@), pos as int));
                            result = push_close_tags(result, &closed, &s, pos);
                            result = push_open_tag(result, &added, arg, &s);
                            assert(all_start_before(scoper.stack(), np as int)) by {
                                let st = scoper.stack();
                                assert forall|j: int| 0 <= j < st.len() implies #[trigger] st[j].inner_start <= np by {
                                    if j < st.len() - 1 {
                                        assert(st[j] == stack[j]);
                                    }
                                }
                            }
                        },
                        MatchType::Close(info) => {
                            let closed = scoper.close_scope(&info);
                            assert(all_start_before(scopes_view(closed@), pos as int)) by {
                                let cl = scopes_view(closed@);
                                lemma_last_with_tag(stack, info@.tag, stack.len() as int);
                                assert forall|j: int| 0 <= j < cl.len() implies #[trigger] cl[j].inner_start <= pos by {
                                    if let Some(k) = last_with_tag(stack, info@.tag, stack.len() as int) {
                                        assert(cl[j] == stack.skip(k)[stack.len() - k - 1 - j]);
                                        assert(cl[j] == stack[stack.len() - 1 - j]);
                                    }
                                }
                            }
                            result = push_close_tags(result, &closed, &s, pos);
                            assert(all_start_before(scoper.stack(), np as int)) by {
                                let st = scoper.stack();
                                lemma_last_with_tag(stack, info@.tag, stack.len() as int);
                                assert forall|j: int| 0 <= j < st.len() implies #[trigger] st[j].inner_start <= np by {
                                    if let Some(k) = last_with_tag(stack, info@.tag, stack.len() as int) {
                                        assert(st[j] == stack.take(k)[j]);
                                    }
                                    assert(st[j] == stack[j]);
                                }
                            }
                        },
                    }
                    pos = np;
                },
                None => {
                    result = append_char(result, s[pos]);
                    pos = pos + 1;
                },
            }
            assert(gnp == pos as int && gst == scoper.stack() && result@ =~= before + gout);
        }
        let ghost last_stack = scoper.stack();
        let remaining = scoper.dump_remaining();
        assert(all_start_before(scopes_view(remaining@), n as int)) by {
            let rm = scopes_view(remaining@);
            assert forall|j: int| 0 <= j < rm.len() implies #[trigger] rm[j].inner_start <= n by {
                assert(rm[j] == last_stack[last_stack.len() - 1 - j]);
            }
        }
        result = push_close_tags(result, &remaining, &s, n);
        result
    }
}


// ------------------------------
// *     CONSTRUCTION           *
// ------------------------------

/// The error type of `BBCode::build`. Building never fails, since tag names are matched
/// literally; callers that handle a failure keep working.
#[derive(Debug)]
pub struct BuildError;

/// The html escapes of the text: `<`, `>`, `&`, `"` and `'`, with their replacements.
pub open spec fn html_escape_pairs() -> Seq<(Seq<char>, Seq<char>)> {
    seq![
        (seq!['<'], seq!['&', 'l', 't', ';']),
        (seq!['>'], seq!['&', 'g', 't', ';']),
        (seq!['&'], seq!['&', 'a', 'm', 'p', ';']),
        (seq!['"'], seq!['&', 'q', 'u', 'o', 't', ';']),
        (seq!['\''], seq!['&', '#', '3', '9', ';']),
    ]
}

/// The matcher replacing an escape pair.
pub open spec fn escape_matcher(p: (Seq<char>, Seq<char>)) -> MatchInfoView {
    MatchInfoView { pattern: PatternView::Literal(p.0), match_type: MatchTypeView::DirectReplace(p.1) }
}

/// The matchers of the opening and closing tags of each tag, in order.
pub open spec fn tag_matchers(infos: Seq<TagInfoView>) -> Seq<MatchInfoView>
    decreases infos.len(),
{
    if infos.len() == 0 {
        Seq::<MatchInfoView>::empty()
    } else {
        let t = infos.last();
        tag_matchers(infos.drop_last()) + seq![
            MatchInfoView { pattern: PatternView::OpenTag(t.tag), match_type: MatchTypeView::Open(t) },
            MatchInfoView { pattern: PatternView::CloseTag(t.tag), match_type: MatchTypeView::Close(t) },
        ]
    }
}

/// The matchers of a translator built for the given tags: plain text first (the common case),
/// then the html escapes, then the opening and closing tag of each tag.
pub open spec fn spec_build(infos: Seq<TagInfoView>) -> Seq<MatchInfoView> {
    seq![MatchInfoView { pattern: PatternView::Plain, match_type: MatchTypeView::Passthrough }]
        + html_escape_pairs().map_values(|p: (Seq<char>, Seq<char>)| escape_matcher(p))
        + tag_matchers(infos)
}

pub open spec fn infos_view(v: Seq<TagInfo>) -> Seq<TagInfoView> {
    v.map_values(|t: TagInfo| t@)
}

pub open spec fn pairs_view(v: Seq<(&'static str, &'static str)>) -> Seq<(Seq<char>, Seq<char>)> {
    v.map_values(|p: (&'static str, &'static str)| (p.0@, p.1@))
}

/// A simple tag (same html name) in the model.
pub open spec fn simple_tag(name: Seq<char>) -> TagInfoView {
    TagInfoView { tag: name, outtag: name, tag_type: TagTypeView::Simple, rawextra: None }
}

/// The basic bbcode tags.
pub open spec fn basic_tags() -> Seq<TagInfoView> {
    seq![
        simple_tag(seq!['b']),
        simple_tag(seq!['i']),
        simple_tag(seq!['s', 'u', 'p']),
        simple_tag(seq!['s', 'u', 'b']),
        simple_tag(seq!['u']),
        simple_tag(seq!['s']),
        TagInfoView { tag: seq!['l', 'i', 's', 't'], outtag: seq!['u', 'l'], tag_type: TagTypeView::Simple, rawextra: None },
        TagInfoView { tag: seq!['\\', '*'], outtag: seq!['l', 'i'], tag_type: TagTypeView::Simple, rawextra: None },
        TagInfoView {
            tag: seq!['u', 'r', 'l'],
            outtag: seq!['a'],
            tag_type: TagTypeView::DefaultArg(seq!['h', 'r', 'e', 'f']),
            rawextra: Some(seq!['t', 'a', 'r', 'g', 'e', 't', '=', '"', '_', 'b', 'l', 'a', 'n', 'k', '"']),
        },
        TagInfoView {
            tag: seq!['i', 'm', 'g'],
            outtag: seq!['i', 'm', 'g'],
            tag_type: TagTypeView::SelfClosing(seq!['s', 'r', 'c']),
            rawextra: None,
        },
    ]
}

impl BBCode {
    /// The basic bbcode tags: b, i, sup, sub, u, s, list (as ul), `\*` (as li, matching `[*]`), url (as a link
    /// opening in a new tab) and img.
    pub fn basics() -> (r: Vec<TagInfo>)
        ensures
            infos_view(r@) == basic_tags(),
    {
        let r = vec![
            TagInfo::simple("b"),
            TagInfo::simple("i"),
            TagInfo::simple("sup"),
            TagInfo::simple("sub"),
            TagInfo::simple("u"),
            TagInfo::simple("s"),
            TagInfo { tag: "list", outtag: "ul", tag_type: TagType::Simple, rawextra: None },
            TagInfo { tag: "\\*", outtag: "li", tag_type: TagType::Simple, rawextra: None },
            TagInfo { tag: "url", outtag: "a", tag_type: TagType::DefaultArg("href"), rawextra: Some("target=\"_blank\"") },
            TagInfo { tag: "img", outtag: "img", tag_type: TagType::SelfClosing("src"), rawextra: None },
        ];
        proof {
            reveal_strlit("b");
            reveal_strlit("i");
            reveal_strlit("sup");
            reveal_strlit("sub");
            reveal_strlit("u");
            reveal_strlit("s");
            reveal_strlit("list");
            reveal_strlit("ul");
            reveal_strlit("\\*");
            reveal_strlit("li");
            reveal_strlit("url");
            reveal_strlit("a");
            reveal_strlit("href");
            reveal_strlit("target=\"_blank\"");
            reveal_strlit("img");
            reveal_strlit("src");
        }
        assert("b"@ =~= seq!['b']);
        assert("i"@ =~= seq!['i']);
        assert("sup"@ =~= seq!['s', 'u', 'p']);
        assert("sub"@ =~= seq!['s', 'u', 'b']);
        assert("u"@ =~= seq!['u']);
        assert("s"@ =~= seq!['s']);
        assert("list"@ =~= seq!['l', 'i', 's', 't']);
        assert("ul"@ =~= seq!['u', 'l']);
        assert("\\*"@ =~= seq!['\\', '*']);
        assert("li"@ =~= seq!['l', 'i']);
        assert("url"@ =~= seq!['u', 'r', 'l']);
        assert("a"@ =~= seq!['a']);
        assert("href"@ =~= seq!['h', 'r', 'e', 'f']);
        assert("target=\"_blank\""@ =~= seq!['t', 'a', 'r', 'g', 'e', 't', '=', '"', '_', 'b', 'l', 'a', 'n', 'k', '"']);
        assert("img"@ =~= seq!['i', 'm', 'g']);
        assert("src"@ =~= seq!['s', 'r', 'c']);
        assert(infos_view(r@) =~= basic_tags());
        r
    }

    /// Build a translator for the given tags (pass `BBCode::basics()` for the usual ones).
    /// Tag names are matched as text, not as patterns: a backslash takes the next character
    /// literally and every other character stands for itself, so no tag name can be
    /// malformed and building always succeeds.
    pub fn build(taginfos: Vec<TagInfo>) -> (r: Result<Self, BuildError>)
        ensures
            r matches Ok(b) && b@ == spec_build(infos_view(taginfos@)),
    {
        let escapes = Self::html_escapes();
        let mut tags: Vec<MatchInfo> = Vec::new();
        tags.push(MatchInfo { pattern: Pattern::Plain, match_type: MatchType::Passthrough });
        let mut i: usize = 0;
        while i < escapes.len()
            invariant
                i <= escapes@.len(),
                pairs_view(escapes@) == html_escape_pairs(),
                tags@.map_values(|m: MatchInfo| m@) =~= seq![
                    MatchInfoView { pattern: PatternView::Plain, match_type: MatchTypeView::Passthrough },
                ] + html_escape_pairs().take(i as int).map_values(|p: (Seq<char>, Seq<char>)| escape_matcher(p)),
            decreases escapes@.len() - i,
        {
            let (from, to) = escapes[i];
            assert(pairs_view(escapes@)[i as int] == (from@, to@));
            let ghost before = tags@;
            let m = MatchInfo { pattern: Pattern::Literal(from), match_type: MatchType::DirectReplace(to) };
            tags.push(m);
            assert(tags@.map_values(|m: MatchInfo| m@) =~= before.map_values(|m: MatchInfo| m@).push(m@));
            assert(html_escape_pairs().take(i as int + 1) =~= html_escape_pairs().take(i as int).push((from@, to@)));
            assert(html_escape_pairs().take(i as int + 1).map_values(|p: (Seq<char>, Seq<char>)| escape_matcher(p))
                =~= html_escape_pairs().take(i as int).map_values(|p: (Seq<char>, Seq<char>)| escape_matcher(p)).push(m@));
            i = i + 1;
        }
        assert(html_escape_pairs().take(5) =~= html_escape_pairs());
        let ghost prefix = tags@.map_values(|m: MatchInfo| m@);
        let mut j: usize = 0;
        while j < taginfos.len()
            invariant
                j <= taginfos@.len(),
                tags@.map_values(|m: MatchInfo| m@) =~= prefix + tag_matchers(infos_view(taginfos@.take(j as int))),
            decreases taginfos@.len() - j,
        {
            let t = taginfos[j];
            let ghost before = tags@;
            let mo = MatchInfo { pattern: Pattern::OpenTag(t.tag), match_type: MatchType::Open(t) };
            let mc = MatchInfo { pattern: Pattern::CloseTag(t.tag), match_type: MatchType::Close(t) };
            tags.push(mo);
            tags.push(mc);
            assert(tags@.map_values(|m: MatchInfo| m@) =~= before.map_values(|m: MatchInfo| m@) + seq![mo@, mc@]);
            assert(infos_view(taginfos@.take(j as int + 1)).drop_last() =~= infos_view(taginfos@.take(j as int)));
            assert(infos_view(taginfos@.take(j as int + 1)).last() == t@);
            j = j + 1;
        }
        assert(taginfos@.take(taginfos@.len() as int) =~= taginfos@);
        Ok(BBCode { tags })
    }

    /// The basic direct replacement escapes for html.
    pub fn html_escapes() -> (r: Vec<(&'static str, &'static str)>)
        ensures
            pairs_view(r@) == html_escape_pairs(),
    {
        let r = vec![("<", "&lt;"), (">", "&gt;"), ("&", "&amp;"), ("\"", "&quot;"), ("'", "&#39;")];
        proof {
            reveal_strlit("<");
            reveal_strlit(">");
            reveal_strlit("&");
            reveal_strlit("\"");
            reveal_strlit("'");
            reveal_strlit("&lt;");
            reveal_strlit("&gt;");
            reveal_strlit("&amp;");
            reveal_strlit("&quot;");
            reveal_strlit("&#39;");
        }
        assert("<"@ =~= seq!['<']);
        assert(">"@ =~= seq!['>']);
        assert("&"@ =~= seq!['&']);
        assert("\""@ =~= seq!['"']);
        assert("'"@ =~= seq!['\'']);
        assert("&lt;"@ =~= seq!['&', 'l', 't', ';']);
        assert("&gt;"@ =~= seq!['&', 'g', 't', ';']);
        assert("&amp;"@ =~= seq!['&', 'a', 'm', 'p', ';']);
        assert("&quot;"@ =~= seq!['&', 'q', 'u', 'o', 't', ';']);
        assert("&#39;"@ =~= seq!['&', '#', '3', '9', ';']);
        assert(pairs_view(r@) =~= html_escape_pairs());
        r
    }
}

} // verus!
