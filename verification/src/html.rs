//! HTML output: escaping, and the preview, export and index pages built
//! around rendered markdown.

use crate::assets::{
    CSS, FAVICON, FILE_ICON_SVG, JS_EDITOR, JS_EDITOR_DRAG_DROP, JS_EDITOR_MULTI, JS_EDITOR_SEARCH,
    JS_INDEX, JS_INIT, JS_KATEX, JS_LIVE, JS_LIVE_MULTI, JS_THEME_EARLY, KATEX_CSS, KATEX_JS,
    MERMAID_BOOTSTRAP, PENCIL_SVG, PLUS_SVG, PRINT_SVG,
};
use crate::strs::{extend_all, extend_str, from_chars, seq_eq, to_chars};
use crate::theme::ThemeName;
use vstd::prelude::*;

verus! {

// ---------------------------------------------------------------------------
// Escaping
// ---------------------------------------------------------------------------

/// The HTML escape of one character.
pub open spec fn html_esc(c: char) -> Seq<char> {
    if c == '&' {
        seq!['&', 'a', 'm', 'p', ';']
    } else if c == '<' {
        seq!['&', 'l', 't', ';']
    } else if c == '>' {
        seq!['&', 'g', 't', ';']
    } else if c == '"' {
        seq!['&', 'q', 'u', 'o', 't', ';']
    } else {
        seq![c]
    }
}

/// `s` with `&`, `<`, `>` and `"` written as entities.
pub open spec fn spec_html_escape(s: Seq<char>) -> Seq<char>
    decreases s.len(),
{
    if s.len() == 0 {
        seq![]
    } else {
        spec_html_escape(s.drop_last()) + html_esc(s.last())
    }
}

/// Appends the HTML escape of `s` to `out`.
pub fn push_html_escaped(out: &mut Vec<char>, s: &[char])
    ensures
        final(out)@ == old(out)@ + spec_html_escape(s@),
{
    let ghost start = out@;
    let mut i: usize = 0;
    while i < s.len()
        invariant
            i <= s@.len(),
            out@ == start + spec_html_escape(s@.take(i as int)),
        decreases s.len() - i,
    {
        let c = s[i];
        let ghost before = out@;
        if c == '&' {
            out.push('&');
            out.push('a');
            out.push('m');
            out.push('p');
            out.push(';');
        } else if c == '<' {
            out.push('&');
            out.push('l');
            out.push('t');
            out.push(';');
        } else if c == '>' {
            out.push('&');
            out.push('g');
            out.push('t');
            out.push(';');
        } else if c == '"' {
            out.push('&');
            out.push('q');
            out.push('u');
            out.push('o');
            out.push('t');
            out.push(';');
        } else {
            out.push(c);
        }
        assert(out@ =~= before + html_esc(c));
        assert(s@.take(i + 1).drop_last() =~= s@.take(i as int));
        i = i + 1;
    }
    assert(s@.take(s@.len() as int) =~= s@);
}

/// Escape text interpolated into page markup: `&`, `<`, `>` and `"` become
/// entities, so a file name holding markup cannot execute.
pub fn html_escape(s: &str) -> (r: String)
    ensures
        r@ == spec_html_escape(s@),
{
    let cs = to_chars(s);
    let mut out: Vec<char> = Vec::new();
    push_html_escaped(&mut out, &cs);
    from_chars(&out)
}

/// Escaped text holds no `<`, `>` or `"`, and every `&` in it starts an
/// entity.
pub proof fn lemma_html_escape_safe(s: Seq<char>)
    ensures
        !spec_html_escape(s).contains('<'),
        !spec_html_escape(s).contains('>'),
        !spec_html_escape(s).contains('"'),
        spec_html_escape(s).len() >= s.len(),
    decreases s.len(),
{
    if s.len() > 0 {
        lemma_html_escape_safe(s.drop_last());
        let e = spec_html_escape(s);
        let p = spec_html_escape(s.drop_last());
        let t = html_esc(s.last());
        assert(e == p + t);
        assert forall|j: int| 0 <= j < e.len() implies e[j] != '<' && e[j] != '>' && e[j] != '"' by {
            if j < p.len() {
                assert(e[j] == p[j]);
                assert(!p.contains(e[j]) || (e[j] != '<' && e[j] != '>' && e[j] != '"'));
            } else {
                assert(e[j] == t[j - p.len()]);
            }
        }
    }
}

/// Reading entities back: `&amp;`, `&lt;`, `&gt;` and `&quot;` become the
/// characters they stand for, everything else stays.
pub open spec fn html_unescape(s: Seq<char>) -> Seq<char>
    decreases s.len(),
{
    if s.len() == 0 {
        seq![]
    } else if s.len() >= 5 && s.take(5) == seq!['&', 'a', 'm', 'p', ';'] {
        seq!['&'] + html_unescape(s.skip(5))
    } else if s.len() >= 4 && s.take(4) == seq!['&', 'l', 't', ';'] {
        seq!['<'] + html_unescape(s.skip(4))
    } else if s.len() >= 4 && s.take(4) == seq!['&', 'g', 't', ';'] {
        seq!['>'] + html_unescape(s.skip(4))
    } else if s.len() >= 6 && s.take(6) == seq!['&', 'q', 'u', 'o', 't', ';'] {
        seq!['"'] + html_unescape(s.skip(6))
    } else {
        seq![s[0]] + html_unescape(s.skip(1))
    }
}

proof fn lemma_html_escape_front(s: Seq<char>)
    requires
        s.len() > 0,
    ensures
        spec_html_escape(s) == html_esc(s[0]) + spec_html_escape(s.drop_first()),
    decreases s.len(),
{
    if s.len() == 1 {
        assert(s.drop_last() =~= Seq::<char>::empty());
        assert(s.drop_first() =~= Seq::<char>::empty());
        assert(spec_html_escape(s.drop_last()) == Seq::<char>::empty());
        assert(spec_html_escape(s.drop_first()) == Seq::<char>::empty());
        assert(s.last() == s[0]);
        assert(spec_html_escape(s) =~= html_esc(s[0]));
    } else {
        lemma_html_escape_front(s.drop_last());
        assert(s.drop_last().drop_first() =~= s.drop_first().drop_last());
        assert(s.drop_first().last() == s.last());
        assert(s.drop_last()[0] == s[0]);
        assert(spec_html_escape(s) =~= html_esc(s[0]) + spec_html_escape(s.drop_first()));
    }
}

/// Reading back one escaped character.
proof fn lemma_unescape_step(c: char, rest: Seq<char>)
    ensures
        html_unescape(html_esc(c) + rest) == seq![c] + html_unescape(rest),
{
    let e = html_esc(c);
    let t = e + rest;
    assert(t.skip(e.len() as int) =~= rest);
    if c == '&' {
        assert(t.take(5) =~= seq!['&', 'a', 'm', 'p', ';']);
    } else if c == '<' {
        assert(t[1] == 'l');
        if t.len() >= 5 {
            assert(t.take(5)[1] == 'l');
        }
        assert(t.take(4) =~= seq!['&', 'l', 't', ';']);
    } else if c == '>' {
        assert(t[1] == 'g');
        if t.len() >= 5 {
            assert(t.take(5)[1] == 'g');
        }
        assert(t.take(4)[1] == 'g');
        assert(t.take(4) =~= seq!['&', 'g', 't', ';']);
    } else if c == '"' {
        assert(t[1] == 'q');
        assert(t.take(5)[1] == 'q');
        assert(t.take(4)[1] == 'q');
        assert(t.take(6) =~= seq!['&', 'q', 'u', 'o', 't', ';']);
    } else {
        assert(e == seq![c]);
        assert(t[0] == c);
        if t.len() >= 5 {
            assert(t.take(5)[0] == c);
        }
        if t.len() >= 4 {
            assert(t.take(4)[0] == c);
        }
        if t.len() >= 6 {
            assert(t.take(6)[0] == c);
        }
    }
}

/// Escaping loses nothing: reading the entities back gives the text again,
/// so `&` is escaped exactly once.
pub proof fn lemma_html_escape_roundtrip(s: Seq<char>)
    ensures
        html_unescape(spec_html_escape(s)) == s,
    decreases s.len(),
{
    if s.len() > 0 {
        lemma_html_escape_front(s);
        lemma_html_escape_roundtrip(s.drop_first());
        lemma_unescape_step(s[0], spec_html_escape(s.drop_first()));
        assert(s =~= seq![s[0]] + s.drop_first());
    }
}

/// `s` with each occurrence of the non-empty `pat`, found scanning left to
/// right without overlaps, replaced by `rep` (what `str::replace` does).
pub open spec fn replace_all(s: Seq<char>, pat: Seq<char>, rep: Seq<char>) -> Seq<char>
    recommends
        pat.len() > 0,
    decreases s.len(),
{
    if s.len() == 0 || pat.len() == 0 {
        s
    } else if s.len() >= pat.len() && s.take(pat.len() as int) == pat {
        rep + replace_all(s.skip(pat.len() as int), pat, rep)
    } else {
        seq![s[0]] + replace_all(s.drop_first(), pat, rep)
    }
}

/// Reading entities back one kind at a time, as four successive
/// replacements: `&quot;`, `&gt;` and `&lt;` first, `&amp;` last.
pub open spec fn html_unescape_in_turn(s: Seq<char>) -> Seq<char> {
    replace_all(
        replace_all(
            replace_all(replace_all(s, html_esc('"'), seq!['"']), html_esc('>'), seq!['>']),
            html_esc('<'),
            seq!['<'],
        ),
        html_esc('&'),
        seq!['&'],
    )
}

/// One character, escaped unless its entity has already been read back.
spec fn esc_unless(c: char, done: Set<char>) -> Seq<char> {
    if done.contains(c) { seq![c] } else { html_esc(c) }
}

/// `s` escaped except for the characters in `done`.
spec fn escaped_except(s: Seq<char>, done: Set<char>) -> Seq<char>
    decreases s.len(),
{
    if s.len() == 0 {
        seq![]
    } else {
        esc_unless(s[0], done) + escaped_except(s.drop_first(), done)
    }
}

proof fn lemma_escaped_except_none(s: Seq<char>)
    ensures
        escaped_except(s, Set::empty()) == spec_html_escape(s),
    decreases s.len(),
{
    if s.len() > 0 {
        lemma_html_escape_front(s);
        lemma_escaped_except_none(s.drop_first());
    }
}

proof fn lemma_escaped_except_all(s: Seq<char>, done: Set<char>)
    requires
        done.contains('&'),
        done.contains('<'),
        done.contains('>'),
        done.contains('"'),
    ensures
        escaped_except(s, done) == s,
    decreases s.len(),
{
    if s.len() > 0 {
        lemma_escaped_except_all(s.drop_first(), done);
        assert(esc_unless(s[0], done) == seq![s[0]]);
        assert(s =~= seq![s[0]] + s.drop_first());
    }
}

/// Text without `&` passes through a replacement of a pattern that starts
/// with `&` untouched.
proof fn lemma_replace_skips_plain(x: Seq<char>, y: Seq<char>, pat: Seq<char>, rep: Seq<char>)
    requires
        pat.len() > 0,
        pat[0] == '&',
        !x.contains('&'),
    ensures
        replace_all(x + y, pat, rep) == x + replace_all(y, pat, rep),
    decreases x.len(),
{
    if x.len() == 0 {
        assert(x + y =~= y);
    } else {
        let t = x + y;
        assert(t[0] == x[0]);
        assert(x[0] != '&') by {
            if x[0] == '&' {
                assert(x.contains('&'));
            }
        }
        if t.len() >= pat.len() {
            assert(t.take(pat.len() as int)[0] == x[0]);
        }
        assert(t.drop_first() =~= x.drop_first() + y);
        assert(!x.drop_first().contains('&')) by {
            if x.drop_first().contains('&') {
                let j = choose|j: int| 0 <= j < x.drop_first().len() && x.drop_first()[j] == '&';
                assert(x[j + 1] == '&');
            }
        }
        lemma_replace_skips_plain(x.drop_first(), y, pat, rep);
        assert(seq![x[0]] + (x.drop_first() + replace_all(y, pat, rep)) =~= x + replace_all(y, pat, rep));
    }
}

/// Reading back the entity of `k` turns the text escaped except for `done`
/// into the text escaped except for `done` and `k`.
proof fn lemma_read_back_one(s: Seq<char>, done: Set<char>, k: char)
    requires
        k == '&' || k == '<' || k == '>' || k == '"',
        !done.contains(k),
        !done.contains('&'),
    ensures
        replace_all(escaped_except(s, done), html_esc(k), seq![k]) == escaped_except(s, done.insert(k)),
    decreases s.len(),
{
    let pat = html_esc(k);
    if s.len() > 0 {
        let c = s[0];
        let p = esc_unless(c, done);
        let rest = escaped_except(s.drop_first(), done);
        let t = p + rest;
        lemma_read_back_one(s.drop_first(), done, k);
        assert(escaped_except(s, done) == t);
        if c == k {
            assert(p == pat);
            assert(t.take(pat.len() as int) =~= pat);
            assert(t.skip(pat.len() as int) =~= rest);
            assert(esc_unless(c, done.insert(k)) == seq![k]);
        } else {
            assert(esc_unless(c, done.insert(k)) == p);
            if c == '&' || c == '<' || c == '>' || c == '"' {
                if !done.contains(c) {
                    assert(p == html_esc(c));
                    assert(t[0] == '&');
                    assert(t[1] == p[1]);
                    assert(p[1] != pat[1]);
                    if t.len() >= pat.len() {
                        assert(t.take(pat.len() as int)[1] == p[1]);
                    }
                    assert(!p.drop_first().contains('&')) by {
                        if p.drop_first().contains('&') {
                            let j = choose|j: int| 0 <= j < p.drop_first().len() && p.drop_first()[j] == '&';
                            assert(p[j + 1] == '&');
                        }
                    }
                    assert(t.drop_first() =~= p.drop_first() + rest);
                    lemma_replace_skips_plain(p.drop_first(), rest, pat, seq![k]);
                    assert(seq![t[0]] + (p.drop_first() + replace_all(rest, pat, seq![k])) =~= p + replace_all(rest, pat, seq![k]));
                } else {
                    assert(p == seq![c]);
                    assert(!p.contains('&')) by {
                        if p.contains('&') {
                            let j = choose|j: int| 0 <= j < p.len() && p[j] == '&';
                            assert(p[j] == c);
                        }
                    }
                    lemma_replace_skips_plain(p, rest, pat, seq![k]);
                }
            } else {
                assert(p == seq![c]);
                assert(!p.contains('&')) by {
                    if p.contains('&') {
                        let j = choose|j: int| 0 <= j < p.len() && p[j] == '&';
                        assert(p[j] == c);
                    }
                }
                lemma_replace_skips_plain(p, rest, pat, seq![k]);
            }
        }
    }
}

/// Escaping loses nothing when the entities are read back one kind at a
/// time with `&amp;` last: the four successive replacements give the text
/// again.
pub proof fn lemma_html_escape_replace_roundtrip(s: Seq<char>)
    ensures
        html_unescape_in_turn(spec_html_escape(s)) == s,
{
    let d0 = Set::<char>::empty();
    let d1 = d0.insert('"');
    let d2 = d1.insert('>');
    let d3 = d2.insert('<');
    let d4 = d3.insert('&');
    lemma_escaped_except_none(s);
    lemma_read_back_one(s, d0, '"');
    lemma_read_back_one(s, d1, '>');
    lemma_read_back_one(s, d2, '<');
    lemma_read_back_one(s, d3, '&');
    lemma_escaped_except_all(s, d4);
}

/// Whether a character is percent-encoded in an href.
pub open spec fn url_reserved(c: char) -> bool {
    c == '"' || c == '\'' || c == '<' || c == '>' || c == '&' || c == ' ' || c == '#' || c == '?'
}

/// An upper-case hexadecimal digit.
pub open spec fn hex_upper(n: int) -> char {
    if n < 10 {
        (n + 48) as char
    } else {
        (n + 55) as char
    }
}

/// The href encoding of one character: `%XX` for the reserved ones.
pub open spec fn url_esc(c: char) -> Seq<char> {
    if url_reserved(c) {
        seq!['%', hex_upper(c as int / 16), hex_upper(c as int % 16)]
    } else {
        seq![c]
    }
}

/// `s` with the characters that would break out of an href percent-encoded.
pub open spec fn spec_url_escape(s: Seq<char>) -> Seq<char>
    decreases s.len(),
{
    if s.len() == 0 {
        seq![]
    } else {
        spec_url_escape(s.drop_last()) + url_esc(s.last())
    }
}

fn hex_upper_char(n: u32) -> (c: char)
    requires
        n < 16,
    ensures
        c == hex_upper(n as int),
{
    if n < 10 {
        crate::strs::char_from_ascii(n + 48)
    } else {
        crate::strs::char_from_ascii(n + 55)
    }
}

/// Percent-encode the characters that would break out of an href.
pub fn url_escape(s: &str) -> (r: String)
    ensures
        r@ == spec_url_escape(s@),
{
    let cs = to_chars(s);
    let mut out: Vec<char> = Vec::new();
    let mut i: usize = 0;
    while i < cs.len()
        invariant
            i <= cs@.len(),
            out@ == spec_url_escape(cs@.take(i as int)),
        decreases cs.len() - i,
    {
        let c = cs[i];
        let ghost before = out@;
        if c == '"' || c == '\'' || c == '<' || c == '>' || c == '&' || c == ' ' || c == '#' || c
            == '?' {
            let u = crate::strs::char_code(c);
            out.push('%');
            out.push(hex_upper_char(u / 16));
            out.push(hex_upper_char(u % 16));
        } else {
            out.push(c);
        }
        assert(out@ =~= before + url_esc(c));
        assert(cs@.take(i + 1).drop_last() =~= cs@.take(i as int));
        i = i + 1;
    }
    assert(cs@.take(cs@.len() as int) =~= cs@);
    from_chars(&out)
}

/// The `data-theme` attribute value of a theme.
pub open spec fn theme_attr(theme: ThemeName) -> Seq<char> {
    match theme {
        ThemeName::Dark => "dark"@,
        ThemeName::Light => "light"@,
    }
}

/// The `data-theme` attribute value of a theme.
pub fn theme_strings(theme: &ThemeName) -> (s: &'static str)
    ensures
        s@ == theme_attr(*theme),
{
    match theme {
        ThemeName::Dark => "dark",
        ThemeName::Light => "light",
    }
}

// ---------------------------------------------------------------------------
// Syntax themes
// ---------------------------------------------------------------------------

/// The syntax highlighting themes syntect ships with.
pub open spec fn is_known_syntax_theme(t: Seq<char>) -> bool {
    t == "base16-ocean.dark"@ || t == "base16-eighties.dark"@ || t == "base16-mocha.dark"@ || t
        == "base16-ocean.light"@ || t == "InspiredGitHub"@ || t == "Solarized (dark)"@ || t
        == "Solarized (light)"@
}

/// Whether syntect ships a theme of this name.
pub fn known_syntax_theme(t: &str) -> (b: bool)
    ensures
        b == is_known_syntax_theme(t@),
{
    let v = to_chars(t);
    crate::strs::eq_lit(&v, "base16-ocean.dark") || crate::strs::eq_lit(&v, "base16-eighties.dark")
        || crate::strs::eq_lit(&v, "base16-mocha.dark") || crate::strs::eq_lit(&v, "base16-ocean.light")
        || crate::strs::eq_lit(&v, "InspiredGitHub") || crate::strs::eq_lit(&v, "Solarized (dark)")
        || crate::strs::eq_lit(&v, "Solarized (light)")
}

// ---------------------------------------------------------------------------
// Pages
// ---------------------------------------------------------------------------

/// The `<style>` block for user CSS (nothing when there is none).
pub open spec fn css_block(custom_css: Seq<char>) -> Seq<char> {
    if custom_css.len() == 0 {
        seq![]
    } else {
        "<style>"@ + custom_css + "</style>"@
    }
}

fn push_css_block(out: &mut Vec<char>, custom_css: &str)
    ensures
        final(out)@ == old(out)@ + css_block(custom_css@),
{
    let css = to_chars(custom_css);
    if css.len() > 0 {
        extend_str(out, "<style>");
        extend_all(out, &css);
        extend_str(out, "</style>");
    } else {
        assert(css_block(custom_css@) =~= Seq::<char>::empty());
    }
}

/// The live-preview page around a rendered body.
pub open spec fn page_template(theme_attr: Seq<char>, title: Seq<char>, custom_css_block: Seq<char>, body: Seq<char>) -> Seq<char> {
    r#"<!DOCTYPE html>
<html data-theme=""#@
        + theme_attr
        + r#"">
<head>
    <meta charset="utf-8">
    <meta name="viewport" content="width=device-width, initial-scale=1">
    <title>"#@
        + title
        + r#" — Preview</title>
    "#@
        + FAVICON@
        + r#"
    <style>"#@
        + CSS@
        + r#"</style>
    "#@
        + custom_css_block
        + r#"
    "#@
        + KATEX_CSS@
        + r#"
    "#@
        + KATEX_JS@
        + r#"
    <script>"#@
        + JS_THEME_EARLY@
        + r#"</script>
</head>
<body class="has-editor">
    <div id="progress-bar"></div>
    <button id="sidebar-toggle">&#9776;</button>
    <nav id="sidebar">
        <div id="toc-panel" class="sidebar-panel active"></div>
    </nav>
    <button id="theme-toggle"></button>
    <button id="print-btn" title="Print / Save PDF" onclick="window.print()">"#@
        + PRINT_SVG@
        + r#"</button>
    <button id="editor-toggle" title="Toggle editor">"#@
        + PENCIL_SVG@
        + r#"</button>
    <div id="editor-pane">
        <div id="editor-toolbar">
            <span id="editor-filename">"#@
        + title
        + r#"</span>
            <span id="save-status"></span>
            <span id="editor-stats"></span>
        </div>
        <div id="editor-format-bar">
            <button class="fmt-btn" data-fmt="bold" title="Bold"><b>B</b></button>
            <button class="fmt-btn" data-fmt="italic" title="Italic"><i>I</i></button>
            <button class="fmt-btn" data-fmt="heading" title="Heading">H</button>
            <button class="fmt-btn" data-fmt="strikethrough" title="Strikethrough"><s>S</s></button>
            <button class="fmt-btn" data-fmt="code" title="Code">&lt;/&gt;</button>
            <button class="fmt-btn" data-fmt="link" title="Link">[]</button>
            <button class="fmt-btn" data-fmt="list" title="List">&#x2022;</button>
            <button class="fmt-btn" data-fmt="quote" title="Blockquote">&gt;</button>
        </div>
        <div id="editor-body">
            <div id="line-numbers" aria-hidden="true"></div>
            <textarea id="editor-textarea" spellcheck="false"></textarea>
        </div>
    </div>
    <article id="content" class="markdown-body">"#@
        + body
        + r#"</article>
    <button id="back-to-top"><svg width="16" height="16" viewBox="0 0 24 24" fill="none" stroke="currentColor" stroke-width="2.5" stroke-linecap="round" stroke-linejoin="round"><line x1="12" y1="19" x2="12" y2="5"/><polyline points="5 12 12 5 19 12"/></svg></button>
"#@
        + MERMAID_BOOTSTRAP@
        + r#"
    <script>"#@
        + JS_INIT@
        + r#"</script>
    <script>"#@
        + JS_KATEX@
        + r#"</script>
    <script>"#@
        + JS_LIVE@
        + r#"</script>
    <script>"#@
        + JS_EDITOR@
        + r#"</script>
    <script>"#@
        + JS_EDITOR_SEARCH@
        + r#"</script>
    <script>"#@
        + JS_EDITOR_DRAG_DROP@
        + r#"</script>
</body>
</html>"#@
}

fn build_page_template(theme_attr: &[char], title: &[char], custom_css_block: &[char], body: &[char]) -> (out: Vec<char>)
    ensures
        out@ == page_template(theme_attr@, title@, custom_css_block@, body@),
{
    let mut out: Vec<char> = Vec::new();
    extend_str(&mut out, r#"<!DOCTYPE html>
<html data-theme=""#);
    assert(out@ =~= r#"<!DOCTYPE html>
<html data-theme=""#@);
    extend_all(&mut out, theme_attr);
    extend_str(&mut out, r#"">
<head>
    <meta charset="utf-8">
    <meta name="viewport" content="width=device-width, initial-scale=1">
    <title>"#);
    extend_all(&mut out, title);
    extend_str(&mut out, r#" — Preview</title>
    "#);
    extend_str(&mut out, FAVICON);
    extend_str(&mut out, r#"
    <style>"#);
    extend_str(&mut out, CSS);
    extend_str(&mut out, r#"</style>
    "#);
    extend_all(&mut out, custom_css_block);
    extend_str(&mut out, r#"
    "#);
    extend_str(&mut out, KATEX_CSS);
    extend_str(&mut out, r#"
    "#);
    extend_str(&mut out, KATEX_JS);
    extend_str(&mut out, r#"
    <script>"#);
    extend_str(&mut out, JS_THEME_EARLY);
    extend_str(&mut out, r#"</script>
</head>
<body class="has-editor">
    <div id="progress-bar"></div>
    <button id="sidebar-toggle">&#9776;</button>
    <nav id="sidebar">
        <div id="toc-panel" class="sidebar-panel active"></div>
    </nav>
    <button id="theme-toggle"></button>
    <button id="print-btn" title="Print / Save PDF" onclick="window.print()">"#);
    extend_str(&mut out, PRINT_SVG);
    extend_str(&mut out, r#"</button>
    <button id="editor-toggle" title="Toggle editor">"#);
    extend_str(&mut out, PENCIL_SVG);
    extend_str(&mut out, r#"</button>
    <div id="editor-pane">
        <div id="editor-toolbar">
            <span id="editor-filename">"#);
    extend_all(&mut out, title);
    extend_str(&mut out, r#"</span>
            <span id="save-status"></span>
            <span id="editor-stats"></span>
        </div>
        <div id="editor-format-bar">
            <button class="fmt-btn" data-fmt="bold" title="Bold"><b>B</b></button>
            <button class="fmt-btn" data-fmt="italic" title="Italic"><i>I</i></button>
            <button class="fmt-btn" data-fmt="heading" title="Heading">H</button>
            <button class="fmt-btn" data-fmt="strikethrough" title="Strikethrough"><s>S</s></button>
            <button class="fmt-btn" data-fmt="code" title="Code">&lt;/&gt;</button>
            <button class="fmt-btn" data-fmt="link" title="Link">[]</button>
            <button class="fmt-btn" data-fmt="list" title="List">&#x2022;</button>
            <button class="fmt-btn" data-fmt="quote" title="Blockquote">&gt;</button>
        </div>
        <div id="editor-body">
            <div id="line-numbers" aria-hidden="true"></div>
            <textarea id="editor-textarea" spellcheck="false"></textarea>
        </div>
    </div>
    <article id="content" class="markdown-body">"#);
    extend_all(&mut out, body);
    extend_str(&mut out, r#"</article>
    <button id="back-to-top"><svg width="16" height="16" viewBox="0 0 24 24" fill="none" stroke="currentColor" stroke-width="2.5" stroke-linecap="round" stroke-linejoin="round"><line x1="12" y1="19" x2="12" y2="5"/><polyline points="5 12 12 5 19 12"/></svg></button>
"#);
    extend_str(&mut out, MERMAID_BOOTSTRAP);
    extend_str(&mut out, r#"
    <script>"#);
    extend_str(&mut out, JS_INIT);
    extend_str(&mut out, r#"</script>
    <script>"#);
    extend_str(&mut out, JS_KATEX);
    extend_str(&mut out, r#"</script>
    <script>"#);
    extend_str(&mut out, JS_LIVE);
    extend_str(&mut out, r#"</script>
    <script>"#);
    extend_str(&mut out, JS_EDITOR);
    extend_str(&mut out, r#"</script>
    <script>"#);
    extend_str(&mut out, JS_EDITOR_SEARCH);
    extend_str(&mut out, r#"</script>
    <script>"#);
    extend_str(&mut out, JS_EDITOR_DRAG_DROP);
    extend_str(&mut out, r#"</script>
</body>
</html>"#);
    out
}

/// The multi-file live-preview page around a rendered body.
pub open spec fn page_multi_template(theme_attr: Seq<char>, title: Seq<char>, custom_css_block: Seq<char>, file_links: Seq<char>, body: Seq<char>) -> Seq<char> {
    r#"<!DOCTYPE html>
<html data-theme=""#@
        + theme_attr
        + r#"">
<head>
    <meta charset="utf-8">
    <meta name="viewport" content="width=device-width, initial-scale=1">
    <title>"#@
        + title
        + r#" — Preview</title>
    "#@
        + FAVICON@
        + r#"
    <style>"#@
        + CSS@
        + r#"</style>
    "#@
        + custom_css_block
        + r#"
    "#@
        + KATEX_CSS@
        + r#"
    "#@
        + KATEX_JS@
        + r#"
    <script>"#@
        + JS_THEME_EARLY@
        + r#"</script>
</head>
<body class="has-editor">
    <div id="progress-bar"></div>
    <button id="sidebar-toggle">&#9776;</button>
    <nav id="sidebar">
        <a id="back-to-index" href="/">&#8592; Index</a>
        <div id="sidebar-tabs">
            <button class="sidebar-tab active" data-panel="file-nav">Files</button>
            <button class="sidebar-tab" data-panel="toc-panel">Contents</button>
        </div>
        <div id="file-nav" class="sidebar-panel active">
            <input id="file-search" type="text" placeholder="Filter files...">
            "#@
        + file_links
        + r#"
        </div>
        <div id="toc-panel" class="sidebar-panel"></div>
    </nav>
    <button id="theme-toggle"></button>
    <button id="print-btn" title="Print / Save PDF" onclick="window.print()">"#@
        + PRINT_SVG@
        + r#"</button>
    <button id="editor-toggle" title="Toggle editor">"#@
        + PENCIL_SVG@
        + r#"</button>
    <div id="editor-pane">
        <div id="editor-toolbar">
            <span id="editor-filename">"#@
        + title
        + r#"</span>
            <span id="save-status"></span>
            <span id="editor-stats"></span>
        </div>
        <div id="editor-format-bar">
            <button class="fmt-btn" data-fmt="bold" title="Bold"><b>B</b></button>
            <button class="fmt-btn" data-fmt="italic" title="Italic"><i>I</i></button>
            <button class="fmt-btn" data-fmt="heading" title="Heading">H</button>
            <button class="fmt-btn" data-fmt="strikethrough" title="Strikethrough"><s>S</s></button>
            <button class="fmt-btn" data-fmt="code" title="Code">&lt;/&gt;</button>
            <button class="fmt-btn" data-fmt="link" title="Link">[]</button>
            <button class="fmt-btn" data-fmt="list" title="List">&#x2022;</button>
            <button class="fmt-btn" data-fmt="quote" title="Blockquote">&gt;</button>
        </div>
        <div id="editor-body">
            <div id="line-numbers" aria-hidden="true"></div>
            <textarea id="editor-textarea" spellcheck="false"></textarea>
        </div>
    </div>
    <article id="content" class="markdown-body">"#@
        + body
        + r#"</article>
    <button id="back-to-top"><svg width="16" height="16" viewBox="0 0 24 24" fill="none" stroke="currentColor" stroke-width="2.5" stroke-linecap="round" stroke-linejoin="round"><line x1="12" y1="19" x2="12" y2="5"/><polyline points="5 12 12 5 19 12"/></svg></button>
"#@
        + MERMAID_BOOTSTRAP@
        + r#"
    <script>"#@
        + JS_INIT@
        + r#"</script>
    <script>"#@
        + JS_KATEX@
        + r#"</script>
    <script>"#@
        + JS_LIVE_MULTI@
        + r#"</script>
    <script>"#@
        + JS_EDITOR_MULTI@
        + r#"</script>
    <script>"#@
        + JS_EDITOR_SEARCH@
        + r#"</script>
    <script>"#@
        + JS_EDITOR_DRAG_DROP@
        + r#"</script>
</body>
</html>"#@
}

fn build_page_multi_template(theme_attr: &[char], title: &[char], custom_css_block: &[char], file_links: &[char], body: &[char]) -> (out: Vec<char>)
    ensures
        out@ == page_multi_template(theme_attr@, title@, custom_css_block@, file_links@, body@),
{
    let mut out: Vec<char> = Vec::new();
    extend_str(&mut out, r#"<!DOCTYPE html>
<html data-theme=""#);
    assert(out@ =~= r#"<!DOCTYPE html>
<html data-theme=""#@);
    extend_all(&mut out, theme_attr);
    extend_str(&mut out, r#"">
<head>
    <meta charset="utf-8">
    <meta name="viewport" content="width=device-width, initial-scale=1">
    <title>"#);
    extend_all(&mut out, title);
    extend_str(&mut out, r#" — Preview</title>
    "#);
    extend_str(&mut out, FAVICON);
    extend_str(&mut out, r#"
    <style>"#);
    extend_str(&mut out, CSS);
    extend_str(&mut out, r#"</style>
    "#);
    extend_all(&mut out, custom_css_block);
    extend_str(&mut out, r#"
    "#);
    extend_str(&mut out, KATEX_CSS);
    extend_str(&mut out, r#"
    "#);
    extend_str(&mut out, KATEX_JS);
    extend_str(&mut out, r#"
    <script>"#);
    extend_str(&mut out, JS_THEME_EARLY);
    extend_str(&mut out, r#"</script>
</head>
<body class="has-editor">
    <div id="progress-bar"></div>
    <button id="sidebar-toggle">&#9776;</button>
    <nav id="sidebar">
        <a id="back-to-index" href="/">&#8592; Index</a>
        <div id="sidebar-tabs">
            <button class="sidebar-tab active" data-panel="file-nav">Files</button>
            <button class="sidebar-tab" data-panel="toc-panel">Contents</button>
        </div>
        <div id="file-nav" class="sidebar-panel active">
            <input id="file-search" type="text" placeholder="Filter files...">
            "#);
    extend_all(&mut out, file_links);
    extend_str(&mut out, r#"
        </div>
        <div id="toc-panel" class="sidebar-panel"></div>
    </nav>
    <button id="theme-toggle"></button>
    <button id="print-btn" title="Print / Save PDF" onclick="window.print()">"#);
    extend_str(&mut out, PRINT_SVG);
    extend_str(&mut out, r#"</button>
    <button id="editor-toggle" title="Toggle editor">"#);
    extend_str(&mut out, PENCIL_SVG);
    extend_str(&mut out, r#"</button>
    <div id="editor-pane">
        <div id="editor-toolbar">
            <span id="editor-filename">"#);
    extend_all(&mut out, title);
    extend_str(&mut out, r#"</span>
            <span id="save-status"></span>
            <span id="editor-stats"></span>
        </div>
        <div id="editor-format-bar">
            <button class="fmt-btn" data-fmt="bold" title="Bold"><b>B</b></button>
            <button class="fmt-btn" data-fmt="italic" title="Italic"><i>I</i></button>
            <button class="fmt-btn" data-fmt="heading" title="Heading">H</button>
            <button class="fmt-btn" data-fmt="strikethrough" title="Strikethrough"><s>S</s></button>
            <button class="fmt-btn" data-fmt="code" title="Code">&lt;/&gt;</button>
            <button class="fmt-btn" data-fmt="link" title="Link">[]</button>
            <button class="fmt-btn" data-fmt="list" title="List">&#x2022;</button>
            <button class="fmt-btn" data-fmt="quote" title="Blockquote">&gt;</button>
        </div>
        <div id="editor-body">
            <div id="line-numbers" aria-hidden="true"></div>
            <textarea id="editor-textarea" spellcheck="false"></textarea>
        </div>
    </div>
    <article id="content" class="markdown-body">"#);
    extend_all(&mut out, body);
    extend_str(&mut out, r#"</article>
    <button id="back-to-top"><svg width="16" height="16" viewBox="0 0 24 24" fill="none" stroke="currentColor" stroke-width="2.5" stroke-linecap="round" stroke-linejoin="round"><line x1="12" y1="19" x2="12" y2="5"/><polyline points="5 12 12 5 19 12"/></svg></button>
"#);
    extend_str(&mut out, MERMAID_BOOTSTRAP);
    extend_str(&mut out, r#"
    <script>"#);
    extend_str(&mut out, JS_INIT);
    extend_str(&mut out, r#"</script>
    <script>"#);
    extend_str(&mut out, JS_KATEX);
    extend_str(&mut out, r#"</script>
    <script>"#);
    extend_str(&mut out, JS_LIVE_MULTI);
    extend_str(&mut out, r#"</script>
    <script>"#);
    extend_str(&mut out, JS_EDITOR_MULTI);
    extend_str(&mut out, r#"</script>
    <script>"#);
    extend_str(&mut out, JS_EDITOR_SEARCH);
    extend_str(&mut out, r#"</script>
    <script>"#);
    extend_str(&mut out, JS_EDITOR_DRAG_DROP);
    extend_str(&mut out, r#"</script>
</body>
</html>"#);
    out
}

/// One entry of the multi-file sidebar: the file name percent-encoded in
/// the link and escaped as its text, so that markup in a name cannot run.
pub open spec fn file_link_template(file: Seq<char>, active: Seq<char>) -> Seq<char> {
    r#"<a href="/"#@
        + spec_url_escape(file)
        + r#"""#@
        + active
        + r#">"#@
        + spec_html_escape(file)
        + r#"</a>"#@
}

fn build_file_link_template(file: &[char], active: &[char]) -> (out: Vec<char>)
    ensures
        out@ == file_link_template(file@, active@),
{
    let mut out: Vec<char> = Vec::new();
    extend_str(&mut out, r#"<a href="/"#);
    assert(out@ =~= r#"<a href="/"#@);
    let href = url_escape(from_chars(file).as_str());
    extend_all(&mut out, &to_chars(href.as_str()));
    extend_str(&mut out, r#"""#);
    extend_all(&mut out, active);
    extend_str(&mut out, r#">"#);
    push_html_escaped(&mut out, file);
    extend_str(&mut out, r#"</a>"#);
    out
}

/// The standalone export page around a rendered body.
pub open spec fn standalone_template(theme_attr: Seq<char>, title: Seq<char>, custom_css_block: Seq<char>, body: Seq<char>) -> Seq<char> {
    r#"<!DOCTYPE html>
<html data-theme=""#@
        + theme_attr
        + r#"">
<head>
    <meta charset="utf-8">
    <meta name="viewport" content="width=device-width, initial-scale=1">
    <title>"#@
        + title
        + r#"</title>
    "#@
        + FAVICON@
        + r#"
    <style>"#@
        + CSS@
        + r#"</style>
    "#@
        + custom_css_block
        + r#"
    "#@
        + KATEX_CSS@
        + r#"
    "#@
        + KATEX_JS@
        + r#"
    <script>"#@
        + JS_THEME_EARLY@
        + r#"</script>
</head>
<body>
    <div id="progress-bar"></div>
    <button id="sidebar-toggle">&#9776;</button>
    <nav id="sidebar">
        <div id="toc-panel" class="sidebar-panel active"></div>
    </nav>
    <button id="theme-toggle"></button>
    <article id="content" class="markdown-body">"#@
        + body
        + r#"</article>
    <button id="back-to-top"><svg width="16" height="16" viewBox="0 0 24 24" fill="none" stroke="currentColor" stroke-width="2.5" stroke-linecap="round" stroke-linejoin="round"><line x1="12" y1="19" x2="12" y2="5"/><polyline points="5 12 12 5 19 12"/></svg></button>
"#@
        + MERMAID_BOOTSTRAP@
        + r#"
    <script>"#@
        + JS_INIT@
        + r#"</script>
    <script>"#@
        + JS_KATEX@
        + r#"</script>
</body>
</html>"#@
}

fn build_standalone_template(theme_attr: &[char], title: &[char], custom_css_block: &[char], body: &[char]) -> (out: Vec<char>)
    ensures
        out@ == standalone_template(theme_attr@, title@, custom_css_block@, body@),
{
    let mut out: Vec<char> = Vec::new();
    extend_str(&mut out, r#"<!DOCTYPE html>
<html data-theme=""#);
    assert(out@ =~= r#"<!DOCTYPE html>
<html data-theme=""#@);
    extend_all(&mut out, theme_attr);
    extend_str(&mut out, r#"">
<head>
    <meta charset="utf-8">
    <meta name="viewport" content="width=device-width, initial-scale=1">
    <title>"#);
    extend_all(&mut out, title);
    extend_str(&mut out, r#"</title>
    "#);
    extend_str(&mut out, FAVICON);
    extend_str(&mut out, r#"
    <style>"#);
    extend_str(&mut out, CSS);
    extend_str(&mut out, r#"</style>
    "#);
    extend_all(&mut out, custom_css_block);
    extend_str(&mut out, r#"
    "#);
    extend_str(&mut out, KATEX_CSS);
    extend_str(&mut out, r#"
    "#);
    extend_str(&mut out, KATEX_JS);
    extend_str(&mut out, r#"
    <script>"#);
    extend_str(&mut out, JS_THEME_EARLY);
    extend_str(&mut out, r#"</script>
</head>
<body>
    <div id="progress-bar"></div>
    <button id="sidebar-toggle">&#9776;</button>
    <nav id="sidebar">
        <div id="toc-panel" class="sidebar-panel active"></div>
    </nav>
    <button id="theme-toggle"></button>
    <article id="content" class="markdown-body">"#);
    extend_all(&mut out, body);
    extend_str(&mut out, r#"</article>
    <button id="back-to-top"><svg width="16" height="16" viewBox="0 0 24 24" fill="none" stroke="currentColor" stroke-width="2.5" stroke-linecap="round" stroke-linejoin="round"><line x1="12" y1="19" x2="12" y2="5"/><polyline points="5 12 12 5 19 12"/></svg></button>
"#);
    extend_str(&mut out, MERMAID_BOOTSTRAP);
    extend_str(&mut out, r#"
    <script>"#);
    extend_str(&mut out, JS_INIT);
    extend_str(&mut out, r#"</script>
    <script>"#);
    extend_str(&mut out, JS_KATEX);
    extend_str(&mut out, r#"</script>
</body>
</html>"#);
    out
}

/// The "new note" card of the directory index.
pub open spec fn new_note_template() -> Seq<char> {
    r#"<div class="file-card new-note-card" id="new-note-card" tabindex="0"><div class="file-icon">"#@
        + PLUS_SVG@
        + r#"</div><div class="file-name">New Note</div></div><div class="file-card new-note-form" id="new-note-form" style="display:none"><input id="new-note-input" type="text" placeholder="note-name"><div class="new-note-hint">.md &middot; Enter to create &middot; Esc to cancel</div></div>"#@
}

fn build_new_note_template() -> (out: Vec<char>)
    ensures
        out@ == new_note_template(),
{
    let mut out: Vec<char> = Vec::new();
    extend_str(&mut out, r#"<div class="file-card new-note-card" id="new-note-card" tabindex="0"><div class="file-icon">"#);
    assert(out@ =~= r#"<div class="file-card new-note-card" id="new-note-card" tabindex="0"><div class="file-icon">"#@);
    extend_str(&mut out, PLUS_SVG);
    extend_str(&mut out, r#"</div><div class="file-name">New Note</div></div><div class="file-card new-note-form" id="new-note-form" style="display:none"><input id="new-note-input" type="text" placeholder="note-name"><div class="new-note-hint">.md &middot; Enter to create &middot; Esc to cancel</div></div>"#);
    out
}

/// One file card of the index page.
pub open spec fn index_card_template(href: Seq<char>, name: Seq<char>) -> Seq<char> {
    r#"<a class="file-card" href="/"#@
        + href
        + r#""><div class="file-icon">"#@
        + FILE_ICON_SVG@
        + r#"</div><div class="file-name">"#@
        + name
        + r#"</div></a>"#@
}

fn build_index_card_template(href: &[char], name: &[char]) -> (out: Vec<char>)
    ensures
        out@ == index_card_template(href@, name@),
{
    let mut out: Vec<char> = Vec::new();
    extend_str(&mut out, r#"<a class="file-card" href="/"#);
    assert(out@ =~= r#"<a class="file-card" href="/"#@);
    extend_all(&mut out, href);
    extend_str(&mut out, r#""><div class="file-icon">"#);
    extend_str(&mut out, FILE_ICON_SVG);
    extend_str(&mut out, r#"</div><div class="file-name">"#);
    extend_all(&mut out, name);
    extend_str(&mut out, r#"</div></a>"#);
    out
}

/// The file index page.
pub open spec fn index_page_template(theme_attr: Seq<char>, new_note_html: Seq<char>, cards: Seq<char>, index_js: Seq<char>) -> Seq<char> {
    r#"<!DOCTYPE html>
<html data-theme=""#@
        + theme_attr
        + r#"">
<head>
    <meta charset="utf-8">
    <meta name="viewport" content="width=device-width, initial-scale=1">
    <title>Preview — file index</title>
    "#@
        + FAVICON@
        + r#"
    <style>"#@
        + CSS@
        + r#"</style>
    <script>"#@
        + JS_THEME_EARLY@
        + r#"</script>
</head>
<body>
    <button id="theme-toggle"></button>
    <article class="markdown-body">
        <h1>Markdown Files</h1>
        <div class="file-grid">"#@
        + new_note_html
        + cards
        + r#"</div>
    </article>
    <script>"#@
        + JS_INIT@
        + r#"</script>
    "#@
        + index_js
        + r#"
</body>
</html>"#@
}

fn build_index_page_template(theme_attr: &[char], new_note_html: &[char], cards: &[char], index_js: &[char]) -> (out: Vec<char>)
    ensures
        out@ == index_page_template(theme_attr@, new_note_html@, cards@, index_js@),
{
    let mut out: Vec<char> = Vec::new();
    extend_str(&mut out, r#"<!DOCTYPE html>
<html data-theme=""#);
    assert(out@ =~= r#"<!DOCTYPE html>
<html data-theme=""#@);
    extend_all(&mut out, theme_attr);
    extend_str(&mut out, r#"">
<head>
    <meta charset="utf-8">
    <meta name="viewport" content="width=device-width, initial-scale=1">
    <title>Preview — file index</title>
    "#);
    extend_str(&mut out, FAVICON);
    extend_str(&mut out, r#"
    <style>"#);
    extend_str(&mut out, CSS);
    extend_str(&mut out, r#"</style>
    <script>"#);
    extend_str(&mut out, JS_THEME_EARLY);
    extend_str(&mut out, r#"</script>
</head>
<body>
    <button id="theme-toggle"></button>
    <article class="markdown-body">
        <h1>Markdown Files</h1>
        <div class="file-grid">"#);
    extend_all(&mut out, new_note_html);
    extend_all(&mut out, cards);
    extend_str(&mut out, r#"</div>
    </article>
    <script>"#);
    extend_str(&mut out, JS_INIT);
    extend_str(&mut out, r#"</script>
    "#);
    extend_all(&mut out, index_js);
    extend_str(&mut out, r#"
</body>
</html>"#);
    out
}

/// The live-preview page for a rendered body.
pub open spec fn spec_page_html(body: Seq<char>, theme: ThemeName, title: Seq<char>, custom_css: Seq<char>) -> Seq<char> {
    page_template(theme_attr(theme), spec_html_escape(title), css_block(custom_css), body)
}

/// The live-preview page (editor, live reload) around a rendered body.
pub fn page_html(body: &str, theme: &ThemeName, title: &str, custom_css: &str) -> (r: String)
    ensures
        r@ == spec_page_html(body@, *theme, title@, custom_css@),
{
    let attr = to_chars(theme_strings(theme));
    let mut t: Vec<char> = Vec::new();
    push_html_escaped(&mut t, &to_chars(title));
    let mut css: Vec<char> = Vec::new();
    push_css_block(&mut css, custom_css);
    let b = to_chars(body);
    let out = build_page_template(&attr, &t, &css, &b);
    from_chars(&out)
}

/// The sidebar links of the multi-file page, the current file marked.
pub open spec fn file_links(files: Seq<Seq<char>>, current: Seq<char>) -> Seq<char>
    decreases files.len(),
{
    if files.len() == 0 {
        seq![]
    } else {
        file_links(files.drop_last(), current) + file_link_template(
            files.last(),
            if files.last() == current {
                " class=\"active\""@
            } else {
                seq![]
            },
        )
    }
}

/// The views of a list of strings.
pub open spec fn string_views(v: Seq<String>) -> Seq<Seq<char>> {
    v.map_values(|s: String| s@)
}

/// The multi-file live-preview page for a rendered body.
pub open spec fn spec_page_multi_html(
    body: Seq<char>,
    theme: ThemeName,
    title: Seq<char>,
    all_files: Seq<Seq<char>>,
    current_file: Seq<char>,
    custom_css: Seq<char>,
) -> Seq<char> {
    page_multi_template(
        theme_attr(theme),
        spec_html_escape(title),
        css_block(custom_css),
        file_links(all_files, current_file),
        body,
    )
}

/// The multi-file live-preview page around a rendered body.
pub fn page_multi_html(
    body: &str,
    theme: &ThemeName,
    title: &str,
    all_files: &[String],
    current_file: &str,
    custom_css: &str,
) -> (r: String)
    ensures
        r@ == spec_page_multi_html(body@, *theme, title@, string_views(all_files@), current_file@, custom_css@),
{
    let attr = to_chars(theme_strings(theme));
    let mut t: Vec<char> = Vec::new();
    push_html_escaped(&mut t, &to_chars(title));
    let mut css: Vec<char> = Vec::new();
    push_css_block(&mut css, custom_css);
    let cur = to_chars(current_file);
    let mut links: Vec<char> = Vec::new();
    let mut i: usize = 0;
    while i < all_files.len()
        invariant
            i <= all_files@.len(),
            cur@ == current_file@,
            links@ == file_links(string_views(all_files@.take(i as int)), current_file@),
        decreases all_files.len() - i,
    {
        let f = to_chars(all_files[i].as_str());
        let active: Vec<char> = if seq_eq(&f, &cur) {
            to_chars(" class=\"active\"")
        } else {
            Vec::new()
        };
        let link = build_file_link_template(&f, &active);
        extend_all(&mut links, &link);
        proof {
            let vs = string_views(all_files@.take(i + 1));
            assert(vs.drop_last() =~= string_views(all_files@.take(i as int)));
            assert(vs.last() == f@);
            if f@ != current_file@ {
                assert(active@ =~= Seq::<char>::empty());
            }
        }
        i = i + 1;
    }
    assert(all_files@.take(i as int) =~= all_files@);
    let b = to_chars(body);
    let out = build_page_multi_template(&attr, &t, &css, &links, &b);
    from_chars(&out)
}

/// The standalone export page for a rendered body.
pub open spec fn spec_standalone_html(body: Seq<char>, theme: ThemeName, title: Seq<char>, custom_css: Seq<char>) -> Seq<char> {
    standalone_template(theme_attr(theme), spec_html_escape(title), css_block(custom_css), body)
}

/// The standalone page (no live reload, no editor) around a rendered body.
pub fn standalone_html(body: &str, theme: &ThemeName, title: &str, custom_css: &str) -> (r: String)
    ensures
        r@ == spec_standalone_html(body@, *theme, title@, custom_css@),
{
    let attr = to_chars(theme_strings(theme));
    let mut t: Vec<char> = Vec::new();
    push_html_escaped(&mut t, &to_chars(title));
    let mut css: Vec<char> = Vec::new();
    push_css_block(&mut css, custom_css);
    let b = to_chars(body);
    let out = build_standalone_template(&attr, &t, &css, &b);
    from_chars(&out)
}

/// The cards of the index page, names escaped and links percent-encoded.
pub open spec fn index_cards(files: Seq<Seq<char>>) -> Seq<char>
    decreases files.len(),
{
    if files.len() == 0 {
        seq![]
    } else {
        index_cards(files.drop_last()) + index_card_template(
            spec_url_escape(files.last()),
            spec_html_escape(files.last()),
        )
    }
}

/// What `render_index_page` returns.
pub open spec fn spec_index_page(files: Seq<Seq<char>>, theme: ThemeName, dir_mode: bool) -> Seq<char> {
    index_page_template(
        theme_attr(theme),
        if dir_mode {
            new_note_template()
        } else {
            seq![]
        },
        index_cards(files),
        if dir_mode {
            "<script>"@ + JS_INDEX@ + "</script>"@
        } else {
            seq![]
        },
    )
}

/// Render an index page listing markdown files as cards; in directory
/// mode it also offers a "new note" card.
pub fn render_index_page(files: &[String], theme: &ThemeName, dir_mode: bool) -> (r: String)
    ensures
        r@ == spec_index_page(string_views(files@), *theme, dir_mode),
{
    let attr = to_chars(theme_strings(theme));
    let note: Vec<char> = if dir_mode {
        build_new_note_template()
    } else {
        Vec::new()
    };
    let mut cards: Vec<char> = Vec::new();
    let mut i: usize = 0;
    while i < files.len()
        invariant
            i <= files@.len(),
            cards@ == index_cards(string_views(files@.take(i as int))),
        decreases files.len() - i,
    {
        let f = to_chars(files[i].as_str());
        let mut href: Vec<char> = to_chars(url_escape(files[i].as_str()).as_str());
        let mut name: Vec<char> = Vec::new();
        push_html_escaped(&mut name, &f);
        let card = build_index_card_template(&href, &name);
        extend_all(&mut cards, &card);
        proof {
            let vs = string_views(files@.take(i + 1));
            assert(vs.drop_last() =~= string_views(files@.take(i as int)));
            assert(vs.last() == f@);
        }
        i = i + 1;
    }
    assert(files@.take(i as int) =~= files@);
    let mut js: Vec<char> = Vec::new();
    if dir_mode {
        extend_str(&mut js, "<script>");
        extend_str(&mut js, JS_INDEX);
        extend_str(&mut js, "</script>");
    }
    let out = build_index_page_template(&attr, &note, &cards, &js);
    proof {
        if !dir_mode {
            assert(note@ =~= Seq::<char>::empty());
            assert(js@ =~= Seq::<char>::empty());
        }
    }
    from_chars(&out)
}

} // verus!
