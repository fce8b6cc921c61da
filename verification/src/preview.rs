//! The HTML document that the preview pane shows: the rendered body with
//! the preview style sheet, and the KaTeX and Mermaid scripts when the
//! document needs them; and the title of the main window.

use vstd::prelude::*;
use vstd::string::StringExecFns;
use crate::markdown::{render_markdown, md_html, md_events, replacements_of, has_math, has_mermaid, PREVIEW_OPTIONS};

verus! {

/// The style sheet of the preview, in light and dark variants.
pub const MARKDOWN_CSS: &'static str = r#"
<style>
:root {
    color-scheme: light dark;
    --bg-primary: #FAFAFA;
    --bg-secondary: #FFFFFF;
    --text-primary: #1D1D1F;
    --text-secondary: #6E6E73;
    --accent: #007AFF;
    --border: #D2D2D7;
    --code-bg: #F5F5F7;
    --blockquote-bg: #F5F5F7;
    --blockquote-border: #D2D2D7;
    --table-header: #F5F5F7;
    --table-border: #D2D2D7;
    --hr-color: #D2D2D7;
    --shadow: rgba(0, 0, 0, 0.04);
}

@media (prefers-color-scheme: dark) {
    :root {
        --bg-primary: #242426;
        --bg-secondary: #1C1C1E;
        --text-primary: #F5F5F7;
        --text-secondary: #98989D;
        --accent: #0A84FF;
        --border: #38383A;
        --code-bg: #2C2C2E;
        --blockquote-bg: #2C2C2E;
        --blockquote-border: #48484A;
        --table-header: #2C2C2E;
        --table-border: #38383A;
        --hr-color: #38383A;
        --shadow: rgba(0, 0, 0, 0.2);
    }
}

* {
    margin: 0;
    padding: 0;
    box-sizing: border-box;
}

body {
    font-family: -apple-system, BlinkMacSystemFont, "SF Pro Text", "Segoe UI", Roboto, Oxygen, Ubuntu, Cantarell, sans-serif;
    line-height: 1.7;
    color: var(--text-primary);
    background: var(--bg-primary);
    max-width: 780px;
    margin: 0 auto;
    padding: 32px 24px;
    -webkit-font-smoothing: antialiased;
    -moz-osx-font-smoothing: grayscale;
}

h1, h2, h3, h4, h5, h6 {
    margin-top: 1.8em;
    margin-bottom: 0.6em;
    font-weight: 600;
    letter-spacing: -0.01em;
    line-height: 1.3;
}

h1 { 
    font-size: 2.2em; 
    border-bottom: 2px solid var(--border); 
    padding-bottom: 0.4em; 
    margin-top: 0;
}

h2 { 
    font-size: 1.6em; 
    border-bottom: 1px solid var(--border); 
    padding-bottom: 0.3em; 
}

h3 { font-size: 1.3em; }
h4 { font-size: 1.1em; }
h5 { font-size: 1em; }
h6 { font-size: 0.9em; color: var(--text-secondary); }

p { 
    margin: 1em 0; 
    font-size: 1em;
}

a {
    color: var(--accent);
    text-decoration: none;
    border-bottom: 1px solid transparent;
    transition: border-color 0.15s ease;
}

a:hover {
    border-bottom-color: var(--accent);
}

strong { font-weight: 600; }
em { font-style: italic; }

code {
    background: var(--code-bg);
    padding: 0.2em 0.45em;
    border-radius: 5px;
    font-family: "SF Mono", "JetBrains Mono", "Fira Code", "Cascadia Code", "Consolas", monospace;
    font-size: 0.88em;
    border: 1px solid var(--border);
}

pre {
    background: var(--code-bg);
    padding: 18px 20px;
    border-radius: 10px;
    overflow-x: auto;
    margin: 1.2em 0;
    border: 1px solid var(--border);
}

pre code {
    background: none;
    padding: 0;
    border: none;
    font-size: 0.9em;
    line-height: 1.6;
}

blockquote {
    border-left: 4px solid var(--blockquote-border);
    margin: 1.2em 0;
    padding: 0.8em 1.2em;
    color: var(--text-secondary);
    background: var(--blockquote-bg);
    border-radius: 0 8px 8px 0;
}

blockquote p:last-child {
    margin-bottom: 0;
}

ul, ol {
    padding-left: 1.8em;
    margin: 1em 0;
}

li {
    margin: 0.4em 0;
}

li > ul, li > ol {
    margin: 0.2em 0;
}

input[type="checkbox"] {
    margin-right: 0.5em;
    accent-color: var(--accent);
}

table {
    border-collapse: collapse;
    width: 100%;
    margin: 1.2em 0;
    border-radius: 10px;
    overflow: hidden;
    border: 1px solid var(--table-border);
}

th, td {
    border: 1px solid var(--table-border);
    padding: 10px 14px;
    text-align: left;
}

th {
    font-weight: 600;
    background: var(--table-header);
}

tr:nth-child(even) {
    background: var(--code-bg);
}

hr {
    border: none;
    height: 1px;
    background: var(--hr-color);
    margin: 2em 0;
}

img {
    max-width: 100%;
    height: auto;
    border-radius: 10px;
    margin: 1em 0;
    box-shadow: 0 2px 8px var(--shadow);
}

del {
    opacity: 0.7;
}

mark {
    background: rgba(255, 214, 0, 0.3);
    padding: 0.1em 0.3em;
    border-radius: 3px;
}

.footnotes {
    margin-top: 2em;
    padding-top: 1em;
    border-top: 1px solid var(--border);
    font-size: 0.9em;
    color: var(--text-secondary);
}

.footnotes ol {
    padding-left: 1.5em;
}

.task-list-item {
    list-style: none;
    margin-left: -1.5em;
}

.task-list-item input {
    margin-right: 0.6em;
}

.mermaid {
    background: var(--bg-secondary);
    padding: 16px;
    border-radius: 10px;
    margin: 1em 0;
    text-align: center;
}

.katex-display {
    margin: 1.2em 0;
    overflow-x: auto;
}
</style>
"#;

/// The KaTeX style sheet and scripts, loaded when the document holds math.
pub const KATEX_CDN: &'static str = r#"
<link rel="stylesheet" href="https://cdn.jsdelivr.net/npm/katex@0.16.9/dist/katex.min.css">
<script defer src="https://cdn.jsdelivr.net/npm/katex@0.16.9/dist/katex.min.js"></script>
<script defer src="https://cdn.jsdelivr.net/npm/katex@0.16.9/dist/contrib/auto-render.min.js"></script>
"#;

/// The Mermaid module, loaded when the document holds a diagram.
pub const MERMAID_CDN: &'static str = r#"
<script type="module">
import mermaid from 'https://cdn.jsdelivr.net/npm/mermaid@10/dist/mermaid.esm.min.mjs';
mermaid.initialize({ startOnLoad: true, theme: 'default' });
</script>
"#;

/// The preview document for an HTML body.
pub open spec fn preview_document_text(body: Seq<char>, has_math: bool, has_mermaid: bool) -> Seq<
    char,
> {
    "<!DOCTYPE html><html><head><meta charset='utf-8'>"@ + MARKDOWN_CSS@ + (if has_math {
        KATEX_CDN@
    } else {
        Seq::empty()
    }) + (if has_mermaid {
        MERMAID_CDN@
    } else {
        Seq::empty()
    }) + "</head><body>"@ + body + "</body></html>"@
}

/// The full HTML document that the preview loads for `html_body`: the style
/// sheet in the head, then the KaTeX files if `has_math` and the Mermaid
/// module if `has_mermaid`, and the body.
pub fn preview_document(html_body: &str, has_math: bool, has_mermaid: bool) -> (doc: String)
    ensures
        doc@ == preview_document_text(html_body@, has_math, has_mermaid),
{
    let mut doc = String::from_str("<!DOCTYPE html><html><head><meta charset='utf-8'>");
    doc.append(MARKDOWN_CSS);
    if has_math {
        doc.append(KATEX_CDN);
    }
    if has_mermaid {
        doc.append(MERMAID_CDN);
    }
    doc.append("</head><body>");
    doc.append(html_body);
    doc.append("</body></html>");
    assert(doc@ =~= preview_document_text(html_body@, has_math, has_mermaid));
    doc
}

/// Whether `p` occurs in `s` as a contiguous piece.
pub open spec fn occurs_in(s: Seq<char>, p: Seq<char>) -> bool {
    exists|i: int| 0 <= i && i + p.len() <= s.len() && #[trigger] s.subrange(i, i + p.len()) == p
}

proof fn lemma_occurs_in_middle(a: Seq<char>, p: Seq<char>, c: Seq<char>)
    ensures
        occurs_in(a + p + c, p),
{
    let s = a + p + c;
    assert(s.subrange(a.len() as int, (a.len() + p.len()) as int) =~= p);
}

/// The head of the preview document loads the Mermaid module whenever the
/// document holds a diagram, and the KaTeX files whenever it holds math,
/// each independently of the other. The style sheet is always there. Turning
/// math on adds exactly the KaTeX files, and turning diagrams on exactly the
/// Mermaid module, whatever the body and the other flag are.
pub proof fn lemma_preview_scripts(body: Seq<char>, has_math: bool, has_mermaid: bool)
    ensures
        occurs_in(preview_document_text(body, has_math, has_mermaid), MARKDOWN_CSS@),
        has_mermaid ==> occurs_in(preview_document_text(body, has_math, has_mermaid), MERMAID_CDN@),
        has_math ==> occurs_in(preview_document_text(body, has_math, has_mermaid), KATEX_CDN@),
        preview_document_text(body, true, has_mermaid).len() == preview_document_text(
            body,
            false,
            has_mermaid,
        ).len() + KATEX_CDN@.len(),
        preview_document_text(body, has_math, true).len() == preview_document_text(
            body,
            has_math,
            false,
        ).len() + MERMAID_CDN@.len(),
        occurs_in(preview_document_text(body, has_math, has_mermaid), body),
{
    let pre = "<!DOCTYPE html><html><head><meta charset='utf-8'>"@;
    let km = if has_math { KATEX_CDN@ } else { Seq::<char>::empty() };
    let mm = if has_mermaid { MERMAID_CDN@ } else { Seq::<char>::empty() };
    let tail = "</head><body>"@;
    let end = "</body></html>"@;
    let d = preview_document_text(body, has_math, has_mermaid);
    assert(d =~= pre + MARKDOWN_CSS@ + (km + mm + tail + body + end));
    lemma_occurs_in_middle(pre, MARKDOWN_CSS@, km + mm + tail + body + end);
    if has_mermaid {
        assert(d =~= (pre + MARKDOWN_CSS@ + km) + MERMAID_CDN@ + (tail + body + end));
        lemma_occurs_in_middle(pre + MARKDOWN_CSS@ + km, MERMAID_CDN@, tail + body + end);
    }
    if has_math {
        assert(d =~= (pre + MARKDOWN_CSS@) + KATEX_CDN@ + (mm + tail + body + end));
        lemma_occurs_in_middle(pre + MARKDOWN_CSS@, KATEX_CDN@, mm + tail + body + end);
    }
    assert(d =~= (pre + MARKDOWN_CSS@ + km + mm + tail) + body + end);
    lemma_occurs_in_middle(pre + MARKDOWN_CSS@ + km + mm + tail, body, end);
}

/// The preview document for the Markdown `text`: its rendering, with KaTeX
/// when it holds math and Mermaid when it holds a diagram.
pub fn preview_for(text: &str) -> (doc: String)
    ensures
        doc@ == preview_document_text(
            md_html(text@, PREVIEW_OPTIONS, replacements_of(md_events(text@, PREVIEW_OPTIONS))),
            has_math(md_events(text@, PREVIEW_OPTIONS)),
            has_mermaid(md_events(text@, PREVIEW_OPTIONS)),
        ),
{
    let r = render_markdown(text);
    preview_document(r.html.as_str(), r.has_math, r.has_mermaid)
}

/// The title of the main window: the application name, followed by the
/// name of the open file if there is one.
pub open spec fn window_title_text(file_name: Option<Seq<char>>) -> Seq<char> {
    match file_name {
        Some(n) => "MinimalMark - "@ + n,
        None => "MinimalMark"@,
    }
}

/// The title of the main window for the open file's name.
pub fn window_title(file_name: Option<&str>) -> (t: String)
    ensures
        t@ == window_title_text(
            match file_name {
                Some(n) => Some(n@),
                None => None,
            },
        ),
{
    match file_name {
        Some(n) => {
            let mut t = String::from_str("MinimalMark - ");
            t.append(n);
            t
        },
        None => String::from_str("MinimalMark"),
    }
}

} // verus!
