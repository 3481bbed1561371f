use sbs_frontend::bbcode::{BBCode, MatchType, Pattern};

fn basic_parse(input: &str) -> String {
    let bbcode = BBCode::build(BBCode::basics()).unwrap();
    bbcode.parse(input)
}

#[test]
fn build_init() {
    let _bbcode = BBCode::build(BBCode::basics()).unwrap();
}

#[test]
fn build_add_lt() {
    let bbcode = BBCode::build(BBCode::basics()).unwrap();
    let found = bbcode
        .tags
        .iter()
        .find(|x| matches!(x.match_type, MatchType::DirectReplace(_)))
        .unwrap();
    assert!(matches!(found.pattern, Pattern::Literal("<")));
    if let MatchType::DirectReplace(repl) = found.match_type {
        assert_eq!(repl, "&lt;")
    } else {
        panic!("TEST LOGIC ERROR, NOT DIRECTREPLACE TYPE");
    }
}

#[test]
fn no_alter() {
    assert_eq!(basic_parse("hello"), "hello");
}

#[test]
fn lt_single() {
    assert_eq!(basic_parse("h<ello"), "h&lt;ello");
}

#[test]
fn gt_single() {
    assert_eq!(basic_parse("h>ello"), "h&gt;ello");
}

#[test]
fn amp_single() {
    assert_eq!(basic_parse("h&ello"), "h&amp;ello");
}

#[test]
fn quote_single() {
    assert_eq!(basic_parse("h'ello"), "h&#39;ello");
}

#[test]
fn doublequote_single() {
    assert_eq!(basic_parse("h\"ello"), "h&quot;ello");
}

#[test]
fn complex_escape() {
    assert_eq!(
        basic_parse("it's a %CRAZY% <world> 💙=\"yeah\" 👨‍👨‍👧‍👦>>done"),
        "it&#39;s a %CRAZY% &lt;world&gt; 💙=&quot;yeah&quot; 👨‍👨‍👧‍👦&gt;&gt;done"
    );
}

#[test]
fn simple_bold() {
    assert_eq!(basic_parse("[b]hello[/b]"), "<b>hello</b>");
}

#[test]
fn simple_sup() {
    assert_eq!(basic_parse("[sup]hello[/sup]"), "<sup>hello</sup>");
}

#[test]
fn simple_sub() {
    assert_eq!(basic_parse("[sub]hello[/sub]"), "<sub>hello</sub>");
}

#[test]
fn simple_strikethrough() {
    assert_eq!(basic_parse("[s]hello[/s]"), "<s>hello</s>");
}

#[test]
fn simple_underline() {
    assert_eq!(basic_parse("[u]hello[/u]"), "<u>hello</u>");
}

#[test]
fn simple_italic() {
    assert_eq!(basic_parse("[i]hello[/i]"), "<i>hello</i>");
}

#[test]
fn simple_nospaces() {
    assert_eq!(basic_parse("[b ]hello[/ b]"), "[b ]hello[/ b]");
}

#[test]
fn simple_bolditalic() {
    assert_eq!(basic_parse("[b][i]hello[/i][/b]"), "<b><i>hello</i></b>");
}

#[test]
fn simple_url_default() {
    assert_eq!(
        basic_parse("[url]https://google.com[/url]"),
        r#"<a target="_blank" href="https://google.com">https://google.com</a>"#
    );
}

#[test]
fn simple_url_witharg() {
    assert_eq!(
        basic_parse("[url=http://haloopdy.com]furries lol[/url]"),
        r#"<a target="_blank" href="http://haloopdy.com">furries lol</a>"#
    );
}

#[test]
fn simple_img() {
    assert_eq!(
        basic_parse("[img]https://old.smilebasicsource.com/user_uploads/avatars/t1647374379.png[/img]"),
        r#"<img src="https://old.smilebasicsource.com/user_uploads/avatars/t1647374379.png">"#
    );
}

#[test]
fn simple_img_nonstd() {
    assert_eq!(
        basic_parse("[img=https://old.smilebasicsource.com/user_uploads/avatars/t1647374379.png][/img]"),
        r#"<img src="https://old.smilebasicsource.com/user_uploads/avatars/t1647374379.png">"#
    );
}

#[test]
fn simple_img_nonstd_inner() {
    assert_eq!(
        basic_parse("[img=https://old.smilebasicsource.com/user_uploads/avatars/t1647374379.png]abc 123[/img]"),
        r#"<img src="https://old.smilebasicsource.com/user_uploads/avatars/t1647374379.png">abc 123"#
    );
}

#[test]
fn list_basic() {
    assert_eq!(
        basic_parse("[list]\n[*]item 1\n[*]item 2\n[*]list\n[/list]"),
        "<ul>\n<li>item 1\n</li><li>item 2\n</li><li>list\n</li></ul>"
    );
}

#[test]
fn unclosed_basic() {
    assert_eq!(
        basic_parse("[b] this is bold [i]also italic[/b] oops close all[/i]"),
        "<b> this is bold <i>also italic</i></b> oops close all"
    );
}

#[test]
fn verbatim_url() {
    assert_eq!(
        basic_parse("[url]this[b]is[/b]a no-no[i][/url]"),
        r#"<a target="_blank" href="this[b]is[/b]a no-no[i]">this[b]is[/b]a no-no[i]</a>"#
    );
}

#[test]
fn inner_hack() {
    assert_eq!(basic_parse("[[b][/b]b]love[/[b][/b]b]"), "[<b></b>b]love[/<b></b>b]");
}

#[test]
fn random_brackets() {
    assert_eq!(
        basic_parse("[][[][6][a[ab]c[i]italic[but][][* not] 8[]]]["),
        "[][[][6][a[ab]c<i>italic[but][][* not] 8[]]][</i>"
    );
}

#[test]
fn url_text_is_escaped() {
    assert_eq!(
        basic_parse("[url]<script>[/url]"),
        r#"<a target="_blank" href="&lt;script&gt;">&lt;script&gt;</a>"#
    );
    assert_eq!(basic_parse("[url]a&b[/url]"), r#"<a target="_blank" href="a&amp;b">a&amp;b</a>"#);
}

#[test]
fn list_item_tag_keeps_its_name() {
    let tags = BBCode::basics();
    assert_eq!(tags.len(), 10);
    assert_eq!(tags[7].tag, "\\*");
    assert_eq!(tags[7].outtag, "li");
    assert_eq!(basic_parse("[*]x[/*]"), "<li>x</li>");
}

#[test]
fn output_opens_only_table_tags() {
    let outtags: Vec<&str> = BBCode::basics().iter().map(|t| t.outtag).collect();
    for input in [
        "<script>alert(1)</script>",
        "[b]<i>[/b]",
        "[url=\"><script>]x[/url]",
        "[img]\"onerror=<x>[/img]",
        "[list][*]<li>[/list][/*]",
    ] {
        let out = basic_parse(input);
        for (k, c) in out.char_indices() {
            if c == '<' {
                let rest = &out[k + 1..];
                assert!(
                    outtags.iter().any(|t| rest.starts_with(t) || rest.starts_with(&format!("/{}", t))),
                    "{} gives {}",
                    input,
                    out
                );
            }
        }
    }
}
