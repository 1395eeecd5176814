//! Page assembly: the document pages, the index page and the style sheet.

use vstd::prelude::*;
use crate::config::Config;
use crate::links::{backlinks_of, find_backlinks, rewrite_internal_links, rewrite_links};
use crate::loader::{opt_view, or_else, para_close, para_close_exec};
use crate::post::{Backlink, Post, Timestamp};
use crate::text::{chars_of, matches_at, occurs_at, push_all, slice_vec, string_of};

verus! {

/// The Unicode uppercase mapping of a text.
pub uninterp spec fn upper_of(s: Seq<char>) -> Seq<char>;

/// The RFC 3339 text of the UTC instant `(secs, nanos)`, where it is representable.
pub uninterp spec fn rfc3339_text(secs: int, nanos: int) -> Option<Seq<char>>;

/// The `dd/mm/yyyy` date of the UTC instant `(secs, nanos)`, where it is representable.
pub uninterp spec fn day_month_year(secs: int, nanos: int) -> Option<Seq<char>>;

/// Relies on `str::to_uppercase`.
#[verifier::external_body]
fn uppercase(s: &str) -> (r: String)
    ensures
        r@ == upper_of(s@),
{
    s.to_uppercase()
}

/// Relies on chrono's `DateTime::<Utc>::from_timestamp` and `DateTime::to_rfc3339`.
#[verifier::external_body]
fn format_rfc3339(t: Timestamp) -> (r: Option<String>)
    ensures
        opt_view(r) == rfc3339_text(t.secs as int, t.nanos as int),
{
    chrono::DateTime::<chrono::Utc>::from_timestamp(t.secs, t.nanos).map(|d| d.to_rfc3339())
}

/// Relies on chrono's `DateTime::<Utc>::from_timestamp` and `format("%d/%m/%Y")`.
#[verifier::external_body]
fn format_day_month_year(t: Timestamp) -> (r: Option<String>)
    ensures
        opt_view(r) == day_month_year(t.secs as int, t.nanos as int),
{
    chrono::DateTime::<chrono::Utc>::from_timestamp(t.secs, t.nanos).map(|d| d.format("%d/%m/%Y").to_string())
}

/// Fixed markup of a document page, between its variable parts.
pub const POST_PAGE_0: &'static str = r#"<!DOCTYPE html>
<html lang="en">
<head>
    <meta charset="UTF-8">
    <meta name="viewport" content="width=device-width, initial-scale=1.0">
    "#;

/// Fixed markup of a document page, between its variable parts.
pub const POST_PAGE_1: &'static str = r#"
    "#;

/// Fixed markup of a document page, between its variable parts.
pub const POST_PAGE_2: &'static str = r#"
    <title>"#;

/// Fixed markup of a document page, between its variable parts.
pub const POST_PAGE_3: &'static str = r#" - "#;

/// Fixed markup of a document page, between its variable parts.
pub const POST_PAGE_4: &'static str = r#"</title>
    <link rel="stylesheet" href="../style.css">
    <link rel="preconnect" href="https://fonts.googleapis.com">
    <link rel="preconnect" href="https://fonts.gstatic.com" crossorigin>
    <link href="https://fonts.googleapis.com/css2?family=Crimson+Text:ital,wght@0,400;0,600;1,400&family=Inter:wght@400;600;700&display=swap" rel="stylesheet">
    "#;

/// Fixed markup of a document page, between its variable parts.
pub const POST_PAGE_5: &'static str = r#"
</head>
<body>
    <div class="container">
        <header>
            <div class="header-content">
                <a href="../" class="main-title">"#;

/// Fixed markup of a document page, between its variable parts.
pub const POST_PAGE_6: &'static str = r#"</a>
            </div>
        </header>
        
        <main class="content">
            <article>
                <h1 class="post-title">"#;

/// Fixed markup of a document page, between its variable parts.
pub const POST_PAGE_7: &'static str = r#"</h1>
                <div class="post-content">
                    "#;

/// Fixed markup of a document page, between its variable parts.
pub const POST_PAGE_8: &'static str = r#"
                    "#;

/// Fixed markup of a document page, between its variable parts.
pub const POST_PAGE_9: &'static str = r#"
                </div>
            </article>
            "#;

/// Fixed markup of a document page, between its variable parts.
pub const POST_PAGE_10: &'static str = r#"
        </main>
        
        <footer>
            <a href="../" class="home-link">← Back to all posts</a>
        </footer>
    </div>
    <script>
    document.addEventListener('DOMContentLoaded', function() {
        var meta = {};
        var metaEl = document.getElementById('annotation-meta');
        if (metaEl) {
            try { meta = JSON.parse(metaEl.textContent || '{}'); } catch(e) { meta = {}; }
        }
        var paragraphs = document.querySelectorAll('.post-content p');
        paragraphs.forEach(function(p) {
            var text = (p.textContent || '').trim();
            if (!text) return;
            var a = document.createElement('a');
            a.className = 'exa-link';
            a.target = '_blank';
            a.rel = 'noopener noreferrer';
            a.textContent = '↗';
            a.href = 'https://exa.ai/search?q=' + encodeURIComponent(text);
            p.appendChild(a);
        });

        // Annotations: convert fenced blocks (```links / ```anno) into folded panels attached to the previous paragraph/list
        var codeBlocks = Array.prototype.slice.call(document.querySelectorAll('.post-content pre > code'));
        codeBlocks.forEach(function(code) {
            var cls = (code.getAttribute('class') || '').toLowerCase();
            var text = (code.textContent || '').trim();
            var isAnnotated = false;
            var lines = [];

            // Detect by language class or explicit leading marker line
            if (cls.indexOf('language-links') !== -1 || cls.indexOf('language-anno') !== -1 || cls.indexOf('language-annotation') !== -1) {
                isAnnotated = true;
                lines = text.split('\n');
            } else if (/^(links|anno|annotation)\s*:?/i.test(text)) {
                isAnnotated = true;
                lines = text.split('\n').slice(1);
            }

            if (!isAnnotated) return;

            // Determine target block to attach to: previous paragraph or list
            var pre = code.parentElement && code.parentElement.tagName === 'PRE' ? code.parentElement : null;
            if (!pre) return;
            var target = pre.previousElementSibling;
            while (target && ['P','UL','OL'].indexOf(target.tagName) === -1) {
                target = target.previousElementSibling;
            }
            if (!target) return;

            // Build panel content: parse lines into links with optional descriptions
            var items = [];
            lines.forEach(function(raw) {
                var line = raw.trim();
                if (!line) return;
                // trim leading bullets
                line = line.replace(/^[-*]\s+/, '');

                var title = null, url = null, desc = null, m;

                // [Title](url) - desc
                m = line.match(/^\[([^\]]+)\]\(([^)\s]+)\)(?:\s*[\-–—:]\s*(.+))?$/);
                if (m) {
                    title = m[1];
                    url = m[2];
                    desc = m[3] ? m[3].trim() : null;
                }

                // Title - url - desc
                if (!url) {
                    m = line.match(/^(.+?)\s*[\-–—:]\s*(https?:\/\/\S+)(?:\s*[\-–—:]\s*(.+))?$/);
                    if (m) {
                        title = m[1].trim();
                        url = m[2];
                        desc = m[3] ? m[3].trim() : null;
                    }
                }

                // url - desc
                if (!url) {
                    m = line.match(/^(https?:\/\/\S+)(?:\s*[\-–—:]\s*(.+))?$/);
                    if (m) {
                        url = m[1];
                        desc = m[2] ? m[2].trim() : null;
                    }
                }

                if (!url) return;
                if (!title) {
                    try {
                        var u = new URL(url);
                        title = u.hostname;
                    } catch (e) {
                        title = url;
                    }
                }

                var key = (function(u){
                    try {
                        var x = new URL(u);
                        x.hash = '';
                        x.search = '';
                        var base = x.toString();
                        return [u, base, base.endsWith('/') ? base.slice(0,-1) : base + '/'];
                    } catch(e) { return [u]; }
                })(url);
                var metaEntry = null;
                for (var i=0;i<key.length;i++){ if (meta[key[i]]) { metaEntry = meta[key[i]]; break; } }
                if (metaEntry) {
                    if (metaEntry.title) title = metaEntry.title;
                    if (metaEntry.description) desc = metaEntry.description;
                }

                items.push({ title: title, url: url, desc: desc });
            });

            if (!items.length) return;

            // Create panel
            var panel = document.createElement('div');
            panel.className = 'annotation-panel';
            var ul = document.createElement('ul');
            ul.className = 'annotation-list';
            items.forEach(function(it) {
                var li = document.createElement('li');
                var wrap = document.createElement('div');
                wrap.className = 'annotation-item';

                var titleLine = document.createElement('div');
                titleLine.className = 'annotation-item-titleline';
                var aTitle = document.createElement('a');
                aTitle.className = 'annotation-item-title';
                aTitle.href = it.url;
                aTitle.textContent = it.title;
                aTitle.target = '_blank';
                aTitle.rel = 'noopener noreferrer';

                var aUrl = document.createElement('a');
                aUrl.className = 'annotation-item-link';
                aUrl.href = it.url;
                aUrl.textContent = '(' + it.url + ')';
                aUrl.target = '_blank';
                aUrl.rel = 'noopener noreferrer';

                titleLine.appendChild(aTitle);
                titleLine.appendChild(document.createTextNode(' '));
                titleLine.appendChild(aUrl);
                wrap.appendChild(titleLine);

                if (it.desc) {
                    var d = document.createElement('div');
                    d.className = 'annotation-item-desc';
                    d.textContent = it.desc;
                    wrap.appendChild(d);
                }

                li.appendChild(wrap);
                ul.appendChild(li);
            });
            panel.appendChild(ul);

            // Insert panel after target
            target.insertAdjacentElement('afterend', panel);

            // Add toggle inside target (does not affect layout)
            var btn = document.createElement('button');
            btn.type = 'button';
            btn.className = 'annotation-toggle';
            btn.setAttribute('aria-expanded', 'false');
            btn.setAttribute('title', 'Show related links');
            btn.textContent = '▾';
            target.style.position = target.style.position || 'relative';
            target.appendChild(btn);

            var toggle = function() {
                var open = panel.classList.toggle('open');
                btn.classList.toggle('open', open);
                btn.setAttribute('aria-expanded', open ? 'true' : 'false');
                if (open) {
                    panel.style.display = 'block';
                } else {
                    panel.style.display = 'none';
                }
            };
            btn.addEventListener('click', toggle);

            // Remove the original fenced block
            pre.parentElement && pre.parentElement.removeChild(pre);
        });

        // Annotations: detect plain paragraph 'Links:' followed by a list and fold it under previous block
        var all = Array.prototype.slice.call(document.querySelectorAll('.post-content p'));
        all.forEach(function(marker) {
            var txt = (marker.textContent || '').trim().toLowerCase();
            if (txt !== 'links:' && txt !== 'links' && txt !== 'annotations:' && txt !== 'annotations') return;
            var list = marker.nextElementSibling;
            if (!list || ['UL','OL'].indexOf(list.tagName) === -1) return;

            // Attach to previous meaningful block
            var target = marker.previousElementSibling;
            while (target && ['P','UL','OL','BLOCKQUOTE'].indexOf(target.tagName) === -1) {
                target = target.previousElementSibling;
            }
            if (!target) return;

            var panel = document.createElement('div');
            panel.className = 'annotation-panel';
            // Build list anew to include metadata
            var newList = document.createElement(list.tagName.toLowerCase());
            newList.className = 'annotation-list';
            var anchors = list.querySelectorAll('a[href]');
            anchors.forEach(function(a) {
                var url = a.getAttribute('href');
                var title = (a.textContent || '').trim();
                if (!title) {
                    try { title = new URL(url).hostname; } catch(e) { title = url; }
                }
                var desc = null;
                var metaEntry = meta[url];
                if (metaEntry) {
                    if (metaEntry.title) title = metaEntry.title;
                    if (metaEntry.description) desc = metaEntry.description;
                }
                var li = document.createElement('li');
                var wrap = document.createElement('div');
                wrap.className = 'annotation-item';
                var titleLine = document.createElement('div');
                titleLine.className = 'annotation-item-titleline';
                var aTitle = document.createElement('a');
                aTitle.className = 'annotation-item-title';
                aTitle.href = url;
                aTitle.textContent = title;
                aTitle.target = '_blank';
                aTitle.rel = 'noopener noreferrer';
                var aUrl = document.createElement('a');
                aUrl.className = 'annotation-item-link';
                aUrl.href = url;
                aUrl.textContent = '(' + url + ')';
                aUrl.target = '_blank';
                aUrl.rel = 'noopener noreferrer';
                titleLine.appendChild(aTitle);
                titleLine.appendChild(document.createTextNode(' '));
                titleLine.appendChild(aUrl);
                wrap.appendChild(titleLine);
                if (desc) {
                    var d = document.createElement('div');
                    d.className = 'annotation-item-desc';
                    d.textContent = desc;
                    wrap.appendChild(d);
                }
                li.appendChild(wrap);
                newList.appendChild(li);
            });
            panel.appendChild(newList);
            target.insertAdjacentElement('afterend', panel);

            var btn = document.createElement('button');
            btn.type = 'button';
            btn.className = 'annotation-toggle';
            btn.setAttribute('aria-expanded', 'false');
            btn.setAttribute('title', 'Show related links');
            btn.textContent = '▾';
            target.style.position = target.style.position || 'relative';
            target.appendChild(btn);

            var toggle = function() {
                var open = panel.classList.toggle('open');
                btn.classList.toggle('open', open);
                btn.setAttribute('aria-expanded', open ? 'true' : 'false');
                panel.style.display = open ? 'block' : 'none';
            };
            btn.addEventListener('click', toggle);

            // Remove original marker and list
            list.parentElement && list.parentElement.removeChild(list);
            marker.parentElement && marker.parentElement.removeChild(marker);
        });
    });
    </script>
</body>
    </html>"#;

/// Fixed markup of the index page, between its variable parts.
pub const INDEX_PAGE_0: &'static str = r#"<!DOCTYPE html>
<html lang="en">
<head>
    <meta charset="UTF-8">
    <meta name="viewport" content="width=device-width, initial-scale=1.0">
    <title>"#;

/// Fixed markup of the index page, between its variable parts.
pub const INDEX_PAGE_1: &'static str = r#"</title>
    <link rel="stylesheet" href="./style.css">
    <link rel="preconnect" href="https://fonts.googleapis.com">
    <link rel="preconnect" href="https://fonts.gstatic.com" crossorigin>
    <link href="https://fonts.googleapis.com/css2?family=Crimson+Text:ital,wght@0,400;0,600;1,400&family=Inter:wght@400;600;700&display=swap" rel="stylesheet">
</head>
<body>
    <div class="container">
        <header>
            <div class="header-content">
                <a href="./" class="main-title">"#;

/// Fixed markup of the index page, between its variable parts.
pub const INDEX_PAGE_2: &'static str = r#"</a>
            </div>
        </header>
        
        <main class="content">
            <section class="posts-list">
                "#;

/// Fixed markup of the index page, between its variable parts.
pub const INDEX_PAGE_3: &'static str = r#"
            </section>
        </main>
    </div>
</body>
</html>"#;

/// Fixed markup of one entry of the index, between its variable parts.
pub const INDEX_ITEM_0: &'static str = r#"<article class="post-preview">
    <div class="post-header">
        <h2><a href=""#;

/// Fixed markup of one entry of the index, between its variable parts.
pub const INDEX_ITEM_1: &'static str = r#"">"#;

/// Fixed markup of one entry of the index, between its variable parts.
pub const INDEX_ITEM_2: &'static str = r#"</a></h2>
        <time datetime=""#;

/// Fixed markup of one entry of the index, between its variable parts.
pub const INDEX_ITEM_3: &'static str = r#"">"#;

/// Fixed markup of one entry of the index, between its variable parts.
pub const INDEX_ITEM_4: &'static str = r#"</time>
    </div>
    "#;

/// Fixed markup of one entry of the index, between its variable parts.
pub const INDEX_ITEM_5: &'static str = r#"
</article>"#;

/// Fixed markup of the backlinks section, around its list.
pub const BACKLINKS_0: &'static str = r#"
            <section class="backlinks">
                <h2>Backlinks</h2>
                <ul>
                    "#;

/// Fixed markup of the backlinks section, around its list.
pub const BACKLINKS_1: &'static str = r#"
                </ul>
            </section>"#;

/// Fixed markup of the illustrated initial, between its variable parts.
pub const INITIAL_0: &'static str = r#"<div class="illuminated-initial">
                        <img src=""#;

/// Fixed markup of the illustrated initial, between its variable parts.
pub const INITIAL_1: &'static str = r#"" alt="Illuminated initial "#;

/// Fixed markup of the illustrated initial, between its variable parts.
pub const INITIAL_2: &'static str = r#"" class="initial-image">
                    </div>"#;

/// The style sheet shared by all pages.
pub const STYLE_SHEET: &'static str = r#"/* Reset and base styles */
* {
  margin: 0;
  padding: 0;
  box-sizing: border-box;
}

body {
  background-color: #0a0a0a;
  color: #f5f5f5;
  font-family: 'Crimson Text', Georgia, serif;
  line-height: 1.7;
  font-size: 18px;
  -webkit-font-smoothing: antialiased;
  -moz-osx-font-smoothing: grayscale;
}

/* Container */
.container {
  max-width: 800px;
  margin: 0 auto;
  padding: 0 20px;
}

/* Header */
header {
  padding: 40px 0;
  margin-bottom: 60px;
}

.header-content {
  display: flex;
  align-items: center;
  justify-content: flex-end;
}


.main-title {
  font-family: 'Crimson Text', Georgia, serif;
  font-size: 32px;
  font-weight: 700;
  letter-spacing: 0.1em;
  text-transform: uppercase;
  color: #f5f5f5;
  position: relative;
  text-decoration: none;
  transition: color 0.2s ease;
}

.main-title:hover {
  color: #8b8b8b;
}

.main-title::after {
  content: '';
  position: absolute;
  bottom: -8px;
  left: 0;
  right: 0;
  height: 1px;
  background-color: #4a4a4a;
}

/* Content */
.content {
  margin-bottom: 80px;
}

/* Post titles */
.post-title {
  font-family: 'Crimson Text', Georgia, serif;
  font-size: 42px;
  font-weight: 700;
  line-height: 1.2;
  margin-bottom: 30px;
  padding-bottom: 12px; /* reserve space for underline */
  color: #f5f5f5;
  position: relative;
}

.post-title::after {
  content: '';
  position: absolute;
  bottom: 0;
  left: 0;
  right: 0;
  height: 1px;
  background-color: #4a4a4a;
}

/* Post content */
.post-content {
  font-size: 20px;
  line-height: 1.4;
  margin-bottom: 60px;
}

.post-content hr {
  border: none;
  border-top: 1px solid #2a2a2a;
  height: 0;
  margin: 32px 0 24px 0;
}

.post-content p {
  margin-bottom: 1.5em;
  text-align: justify;
  hyphens: auto;
  position: relative;
}

.post-content h1 {
  font-family: 'Crimson Text', Georgia, serif;
  font-size: 32px;
  font-weight: 600;
  margin: 40px 0 20px 0;
  color: #f5f5f5;
  text-align: left;
}

.post-content h2 {
  font-family: 'Crimson Text', Georgia, serif;
  font-size: 28px;
  font-weight: 600;
  margin: 40px 0 20px 0;
  padding-bottom: 8px; /* reserve space for underline */
  color: #f5f5f5;
  position: relative;
  text-align: right;
}

.post-content h2::after {
  content: '';
  position: absolute;
  bottom: 0;
  left: 0;
  right: 0;
  height: 1px;
  background-color: #4a4a4a;
}

.post-content h3 {
  font-family: 'Crimson Text', Georgia, serif;
  font-size: 22px;
  font-weight: 600;
  margin: 30px 0 15px 0;
  color: #f5f5f5;
  text-align: right;
}


.post-content ul, .post-content ol {
  margin: 20px 0;
  padding-left: 30px;
}

.post-content li {
  margin-bottom: 8px;
}

.post-content blockquote {
  border-left: 3px solid #4a4a4a;
  padding-left: 20px;
  margin: 30px 0;
  font-style: italic;
  color: #d0d0d0;
}

.post-content code {
  background-color: #1a1a1a;
  padding: 2px 6px;
  border-radius: 3px;
  font-family: 'SF Mono', Monaco, 'Cascadia Code', 'Roboto Mono', Consolas, 'Courier New', monospace;
  font-size: 0.9em;
}

.post-content pre {
  background-color: #1a1a1a;
  padding: 20px;
  border-radius: 6px;
  overflow-x: auto;
  margin: 20px 0;
}

.post-content pre code {
  background: none;
  padding: 0;
}

/* Illuminated initial */
.illuminated-initial {
  float: left;
  margin: 0 12px 20px 0;
  shape-outside: rectangle(0, 0, 80px, 80px);
}

.initial-image {
  width: 80px;
  height: 80px;
  object-fit: cover;
  box-shadow: 0 4px 12px rgba(0, 0, 0, 0.3);
  border: 1px solid #4a4a4a;
}

/* Links */
a {
  color: #8b8b8b;
  text-decoration: underline;
  text-decoration-color: #4a4a4a;
  text-underline-offset: 2px;
  transition: color 0.2s ease;
}

a:hover {
  color: #f5f5f5;
  text-decoration-color: #8b8b8b;
}

/* Exa search link per paragraph */
.exa-link {
  position: absolute;
  right: -1.2em;
  top: 0.1em;
  font-size: 0.9em;
  color: #8b8b8b;
  text-decoration: none;
  opacity: 0;
  transition: opacity 0.2s ease, color 0.2s ease;
  margin-left: 0.25em; /* used when inline on mobile */
}

.post-content p:hover .exa-link {
  opacity: 1;
}

.exa-link:hover {
  color: #f5f5f5;
}

/* Annotation toggle and panel */
.annotation-toggle {
  position: absolute;
  left: 50%;
  bottom: -0.6em;
  transform: translateX(-50%);
  background: transparent;
  color: #8b8b8b;
  border: none;
  cursor: pointer;
  font-family: 'Inter', sans-serif;
  font-size: 0.9em;
  line-height: 1;
  padding: 0;
  opacity: 0;
  transition: opacity 0.2s ease, color 0.2s ease, transform 0.2s ease;
}

.post-content p:hover .annotation-toggle,
.post-content ul:hover .annotation-toggle,
.post-content ol:hover .annotation-toggle,
.post-content blockquote:hover .annotation-toggle {
  opacity: 1;
}

.annotation-toggle:hover { color: #f5f5f5; }
.annotation-toggle.open { transform: translateX(-50%) rotate(180deg); }

.annotation-panel {
  display: none;
  margin: 0.6em 0 1.2em 0;
  padding: 10px 14px;
  border-left: 2px solid #2a2a2a;
  background-color: rgba(255,255,255,0.02);
}

.annotation-list {
  margin: 0;
  padding-left: 18px;
}

.annotation-list li { margin: 6px 0; }
.annotation-list a { color: #8b8b8b; }
.annotation-list a:hover { color: #f5f5f5; }

.annotation-item-titleline {
  font-family: 'Crimson Text', Georgia, serif;
}

.annotation-item-title {
  color: #f5f5f5;
  text-decoration: none;
}

.annotation-item-link {
  color: #8b8b8b;
  text-decoration: none;
}

.annotation-item-link:hover, .annotation-item-title:hover {
  color: #f5f5f5;
}

.annotation-item-desc {
  color: #d0d0d0;
  font-size: 0.95em;
}

/* Backlinks section */
.backlinks {
  margin-top: 60px;
  padding-top: 40px;
  border-top: 1px solid #2a2a2a;
}

.backlinks h2 {
  font-family: 'Crimson Text', Georgia, serif;
  font-size: 24px;
  font-weight: 600;
  margin-bottom: 20px;
  color: #f5f5f5;
}

.backlinks ul {
  list-style: none;
  padding: 0;
}

.backlinks li {
  margin-bottom: 12px;
}

.backlinks a {
  font-size: 16px;
  color: #8b8b8b;
}

/* Posts list (index page) */
.posts-list {
  display: flex;
  flex-direction: column;
  gap: 30px;
}

.post-preview {
  padding-bottom: 30px;
  border-bottom: 1px solid #2a2a2a;
}

.post-preview:last-child {
  border-bottom: none;
}

.post-header {
  display: flex;
  justify-content: space-between;
  align-items: baseline;
  margin-bottom: 8px;
}

.post-preview h2 {
  font-family: 'Crimson Text', Georgia, serif;
  font-size: 28px;
  font-weight: 600;
  margin: 0;
  flex: 1;
}

.post-preview h2 a {
  color: #f5f5f5;
  text-decoration: none;
}

.post-preview h2 a:hover {
  color: #8b8b8b;
}

.post-preview time {
  font-size: 14px;
  color: #8b8b8b;
  font-family: 'Inter', sans-serif;
  text-transform: uppercase;
  letter-spacing: 0.05em;
  white-space: nowrap;
  margin-left: 20px;
}

.post-preview .excerpt {
  margin-top: 0;
  font-size: 16px;
  color: #d0d0d0;
  line-height: 1.5;
}

/* Footer */
footer {
  padding: 40px 0;
  border-top: 1px solid #2a2a2a;
  text-align: center;
}

.home-link {
  font-family: 'Crimson Text', Georgia, serif;
  font-size: 16px;
  color: #8b8b8b;
  text-decoration: none;
  transition: color 0.2s ease;
}

.home-link:hover {
  color: #f5f5f5;
}

/* Responsive design */
@media (max-width: 768px) {
  .container {
    padding: 0 15px;
  }
  
  .main-title {
    font-size: 24px;
  }
  
  .post-title {
    font-size: 32px;
  }
  
  .post-content {
    font-size: 18px;
  }
  
  /* On mobile, render arrow as the last inline character */
  .post-content p { padding-right: 0; }
  .exa-link {
    position: static;
    right: auto;
    top: auto;
    display: inline;
    opacity: 1;
  }
  .annotation-toggle {
    position: static;
    left: auto;
    bottom: auto;
    transform: none;
    margin-left: 0.35em;
    opacity: 1;
  }
  
  .illuminated-initial {
    float: none;
    margin: 0 0 20px 0;
    text-align: center;
  }
  
  .initial-image {
    width: 60px;
    height: 60px;
  }
  
  .header-content {
    flex-direction: column;
    gap: 20px;
    text-align: right;
    align-items: flex-end;
  }
  
  .post-header {
    flex-direction: column;
    align-items: flex-start;
    gap: 4px;
  }
  
  .post-preview time {
    margin-left: 0;
    font-size: 12px;
  }
  
  .post-preview h2 {
    font-size: 24px;
  }
}

/* Print styles */
@media print {
  body {
    background: white;
    color: black;
  }
  
  .illuminated-initial {
    display: none;
  }
  
  .exa-link {
    display: none;
  }
  .annotation-toggle { display: none; }
  .annotation-panel { display: none; }
}"#;

/// The description tag of a page, from a non-empty excerpt.
pub open spec fn meta_description(excerpt: Option<Seq<char>>) -> Seq<char> {
    match excerpt {
        Some(d) => if d.len() > 0 {
            "<meta name=\"description\" content=\""@ + d + "\">"@
        } else {
            Seq::empty()
        },
        None => Seq::empty(),
    }
}

/// The publication-time tag of a page.
pub open spec fn meta_published(t: Timestamp) -> Seq<char> {
    "<meta property=\"article:published_time\" content=\""@ + or_else(
        rfc3339_text(t.secs as int, t.nanos as int),
        Seq::empty(),
    ) + "\">"@
}

/// The embedded annotation metadata, from a non-empty JSON text.
pub open spec fn annotation_script(json: Option<Seq<char>>) -> Seq<char> {
    match json {
        Some(j) => if j.len() > 0 {
            "<script id=\"annotation-meta\" type=\"application/json\">"@ + j + "</script>"@
        } else {
            Seq::empty()
        },
        None => Seq::empty(),
    }
}

/// The illustration block of a page whose first letter has a picture.
pub open spec fn initial_block(letter: Option<char>, image: Option<Seq<char>>) -> Seq<char> {
    match (letter, image) {
        (Some(l), Some(img)) => INITIAL_0@ + img + INITIAL_1@ + seq![l] + INITIAL_2@,
        _ => Seq::empty(),
    }
}

/// One entry of the backlinks list.
pub open spec fn backlink_item(b: (Seq<char>, Seq<char>)) -> Seq<char> {
    "<li><a href=\""@ + b.1 + "\">"@ + b.0 + "</a></li>"@
}

/// The entries of the backlinks list, one per line.
pub open spec fn backlink_items(bs: Seq<(Seq<char>, Seq<char>)>) -> Seq<char>
    decreases bs.len(),
{
    if bs.len() == 0 {
        Seq::empty()
    } else if bs.len() == 1 {
        backlink_item(bs[0])
    } else {
        backlink_items(bs.drop_last()) + ITEM_BREAK@ + backlink_item(bs.last())
    }
}

/// The line break and indentation between two backlinks.
pub const ITEM_BREAK: &'static str = "\n                    ";

/// The backlinks section, absent when there are none.
pub open spec fn backlinks_section(bs: Seq<(Seq<char>, Seq<char>)>) -> Seq<char> {
    if bs.len() == 0 {
        Seq::empty()
    } else {
        BACKLINKS_0@ + backlink_items(bs) + BACKLINKS_1@
    }
}

/// `s` without the character that opens its first one-line paragraph (one that
/// does not open with a tag), searching from `i`.
pub open spec fn excise_from(s: Seq<char>, i: int) -> Seq<char>
    decreases s.len() - i,
{
    if i < 0 || i >= s.len() {
        s
    } else if occurs_at(s, "<p>"@, i) && i + 3 < s.len() && s[i + 3] != '<' && para_close(s, i + 4) >= 0 {
        s.take(i + 3) + s.skip(i + 4)
    } else {
        excise_from(s, i + 1)
    }
}

/// The document has an illustration: a first letter, and a picture for it.
pub open spec fn illustrated(post: Post, image: Option<Seq<char>>) -> bool {
    post.first_letter is Some && image is Some
}

/// The body of a document page: the rendered HTML, its leading letter removed
/// when an illustration stands for it, with links to original slugs repointed.
pub open spec fn page_body(post: Post, posts: Seq<Post>, image: Option<Seq<char>>) -> Seq<char> {
    let html = if illustrated(post, image) {
        excise_from(post.html_content@, 0)
    } else {
        post.html_content@
    };
    rewrite_links(html, posts)
}

/// The page of `post` in a site titled `site`.
pub open spec fn post_page(
    site: Seq<char>,
    post: Post,
    posts: Seq<Post>,
    json: Option<Seq<char>>,
    image: Option<Seq<char>>,
) -> Seq<char> {
    POST_PAGE_0@ + meta_description(opt_view(post.excerpt)) + POST_PAGE_1@ + meta_published(post.date)
        + POST_PAGE_2@ + post.title@ + POST_PAGE_3@ + site + POST_PAGE_4@ + annotation_script(json)
        + POST_PAGE_5@ + upper_of(site) + POST_PAGE_6@ + post.title@ + POST_PAGE_7@ + (if illustrated(
        post,
        image,
    ) {
        initial_block(post.first_letter, image)
    } else {
        Seq::empty()
    }) + POST_PAGE_8@ + page_body(post, posts, image) + POST_PAGE_9@ + backlinks_section(
        backlinks_of(posts, post.slug@, post.original_slug@),
    ) + POST_PAGE_10@
}

fn excise_exec(s: &[char]) -> (r: Vec<char>)
    ensures
        r@ == excise_from(s@, 0),
{
    let open = chars_of("<p>");
    proof {
        reveal_strlit("<p>");
    }
    let mut i: usize = 0;
    while i < s.len()
        invariant
            i <= s@.len(),
            open@ == "<p>"@,
            open@.len() == 3,
            excise_from(s@, 0) == excise_from(s@, i as int),
        decreases s@.len() - i,
    {
        if matches_at(s, &open, i) && i + 3 < s.len() && s[i + 3] != '<' {
            match para_close_exec(s, i + 4) {
                Some(_) => {
                    let mut out = slice_vec(s, 0, i + 3);
                    let rest = slice_vec(s, i + 4, s.len());
                    push_all(&mut out, &rest);
                    assert(s@.subrange(0, i + 3) == s@.take(i + 3));
                    assert(s@.subrange(i + 4, s@.len() as int) == s@.skip(i + 4));
                    return out;
                },
                None => {},
            }
        }
        i = i + 1;
    }
    slice_vec(s, 0, s.len())
}

fn backlinks_html(bs: &Vec<Backlink>) -> (r: String)
    ensures
        r@ == backlinks_section(bs@.map_values(|b: Backlink| (b.title@, b.url@))),
{
    let ghost v = bs@.map_values(|b: Backlink| (b.title@, b.url@));
    if bs.len() == 0 {
        return String::new();
    }
    let mut items = String::new();
    let mut i: usize = 0;
    while i < bs.len()
        invariant
            i <= bs@.len(),
            v == bs@.map_values(|b: Backlink| (b.title@, b.url@)),
            items@ == backlink_items(v.take(i as int)),
        decreases bs@.len() - i,
    {
        assert(v.take(i + 1).drop_last() == v.take(i as int));
        assert(v.take(i + 1).last() == (bs@[i as int].title@, bs@[i as int].url@));
        if i > 0 {
            items.append(ITEM_BREAK);
        }
        items.append("<li><a href=\"");
        items.append(bs[i].url.as_str());
        items.append("\">");
        items.append(bs[i].title.as_str());
        items.append("</a></li>");
        proof {
            if i == 0 {
                assert(v.take(1).len() == 1);
                assert(items@ =~= backlink_item(v.take(1)[0]));
            }
        }
        i = i + 1;
    }
    assert(v.take(bs@.len() as int) == v);
    let mut r = String::from_str(BACKLINKS_0);
    r.append(items.as_str());
    r.append(BACKLINKS_1);
    r
}

fn description_tag(excerpt: &Option<String>) -> (r: String)
    ensures
        r@ == meta_description(opt_view(*excerpt)),
{
    let mut r = String::new();
    match excerpt {
        Some(d) => {
            if d.as_str().unicode_len() > 0 {
                r.append("<meta name=\"description\" content=\"");
                r.append(d.as_str());
                r.append("\">");
            }
        },
        None => {},
    }
    r
}

fn published_tag(t: Timestamp) -> (r: String)
    ensures
        r@ == meta_published(t),
{
    let mut r = String::from_str("<meta property=\"article:published_time\" content=\"");
    match format_rfc3339(t) {
        Some(x) => r.append(x.as_str()),
        None => {},
    }
    r.append("\">");
    r
}

fn annotation_tag(json: &Option<String>) -> (r: String)
    ensures
        r@ == annotation_script(opt_view(*json)),
{
    let mut r = String::new();
    match json {
        Some(j) => {
            if j.as_str().unicode_len() > 0 {
                r.append("<script id=\"annotation-meta\" type=\"application/json\">");
                r.append(j.as_str());
                r.append("</script>");
            }
        },
        None => {},
    }
    r
}

fn initial_tag(post: &Post, image: &Option<String>) -> (r: String)
    ensures
        r@ == (if illustrated(*post, opt_view(*image)) {
            initial_block(post.first_letter, opt_view(*image))
        } else {
            Seq::empty()
        }),
{
    let mut r = String::new();
    match (post.first_letter, image) {
        (Some(l), Some(img)) => {
            r.append(INITIAL_0);
            r.append(img.as_str());
            r.append(INITIAL_1);
            r.push(l);
            r.append(INITIAL_2);
        },
        _ => {},
    }
    r
}

fn body_of_page(post: &Post, all_posts: &[Post], image: &Option<String>) -> (r: String)
    ensures
        r@ == page_body(*post, all_posts@, opt_view(*image)),
{
    let html = chars_of(post.html_content.as_str());
    let shown = if post.first_letter.is_some() && image.is_some() {
        excise_exec(&html)
    } else {
        html
    };
    let shown_text = string_of(&shown);
    rewrite_internal_links(shown_text.as_str(), all_posts)
}

/// The complete page of `post`: its description and publication tags, the
/// embedded annotation metadata, the illustration block where `initial_image`
/// holds the picture of its first letter (whose leading character the body then
/// drops), the body with repaired internal links, and its backlinks.
pub fn render_post(
    config: &Config,
    post: &Post,
    all_posts: &[Post],
    annotation_meta_json: Option<String>,
    initial_image: Option<String>,
) -> (r: String)
    ensures
        r@ == post_page(config.title@, *post, all_posts@, opt_view(annotation_meta_json), opt_view(initial_image)),
{
    let backlinks = find_backlinks(all_posts, post.slug.as_str(), post.original_slug.as_str());
    assert(backlinks@.map_values(|b: Backlink| (b.title@, b.url@)) =~= backlinks_of(
        all_posts@,
        post.slug@,
        post.original_slug@,
    ));
    let section = backlinks_html(&backlinks);
    let description = description_tag(&post.excerpt);
    let published = published_tag(post.date);
    let script = annotation_tag(&annotation_meta_json);
    let initial_html = initial_tag(post, &initial_image);
    let body = body_of_page(post, all_posts, &initial_image);
    let upper = uppercase(config.title.as_str());
    let mut r = String::from_str(POST_PAGE_0);
    r.append(description.as_str());
    r.append(POST_PAGE_1);
    r.append(published.as_str());
    r.append(POST_PAGE_2);
    r.append(post.title.as_str());
    r.append(POST_PAGE_3);
    r.append(config.title.as_str());
    r.append(POST_PAGE_4);
    r.append(script.as_str());
    r.append(POST_PAGE_5);
    r.append(upper.as_str());
    r.append(POST_PAGE_6);
    r.append(post.title.as_str());
    r.append(POST_PAGE_7);
    r.append(initial_html.as_str());
    r.append(POST_PAGE_8);
    r.append(body.as_str());
    r.append(POST_PAGE_9);
    r.append(section.as_str());
    r.append(POST_PAGE_10);
    r
}

/// The excerpt paragraph of an index entry.
pub open spec fn excerpt_html(e: Option<Seq<char>>) -> Seq<char> {
    match e {
        Some(x) => "<p class=\"excerpt\">"@ + x + "</p>"@,
        None => Seq::empty(),
    }
}

/// The index entry of one document: link, title, ISO-8601 timestamp, displayed
/// date and excerpt.
pub open spec fn index_item(p: Post) -> Seq<char> {
    INDEX_ITEM_0@ + "./"@ + p.slug@ + "/"@ + INDEX_ITEM_1@ + p.title@ + INDEX_ITEM_2@ + or_else(
        rfc3339_text(p.date.secs as int, p.date.nanos as int),
        Seq::empty(),
    ) + INDEX_ITEM_3@ + or_else(day_month_year(p.date.secs as int, p.date.nanos as int), Seq::empty())
        + INDEX_ITEM_4@ + excerpt_html(opt_view(p.excerpt)) + INDEX_ITEM_5@
}

/// The index entries of `ps`, in order, one after another on their own lines.
pub open spec fn index_items(ps: Seq<Post>) -> Seq<char>
    decreases ps.len(),
{
    if ps.len() == 0 {
        Seq::empty()
    } else if ps.len() == 1 {
        index_item(ps[0])
    } else {
        index_items(ps.drop_last()) + seq!['\n'] + index_item(ps.last())
    }
}

/// The index page of a site titled `site` listing `posts` in their order.
pub open spec fn index_page(site: Seq<char>, posts: Seq<Post>) -> Seq<char> {
    INDEX_PAGE_0@ + site + INDEX_PAGE_1@ + upper_of(site) + INDEX_PAGE_2@ + index_items(posts) + INDEX_PAGE_3@
}

fn index_item_exec(p: &Post) -> (r: String)
    ensures
        r@ == index_item(*p),
{
    let mut r = String::from_str(INDEX_ITEM_0);
    r.append("./");
    r.append(p.slug.as_str());
    r.append("/");
    r.append(INDEX_ITEM_1);
    r.append(p.title.as_str());
    r.append(INDEX_ITEM_2);
    match format_rfc3339(p.date) {
        Some(x) => r.append(x.as_str()),
        None => {},
    }
    r.append(INDEX_ITEM_3);
    match format_day_month_year(p.date) {
        Some(x) => r.append(x.as_str()),
        None => {},
    }
    r.append(INDEX_ITEM_4);
    match &p.excerpt {
        Some(x) => {
            r.append("<p class=\"excerpt\">");
            r.append(x.as_str());
            r.append("</p>");
        },
        None => {},
    }
    r.append(INDEX_ITEM_5);
    r
}

/// The index page: every document of `posts`, in the given order, with its
/// title, timestamp, displayed date and excerpt.
pub fn render_index(config: &Config, posts: &[Post]) -> (r: String)
    ensures
        r@ == index_page(config.title@, posts@),
{
    let mut items = String::new();
    let mut i: usize = 0;
    while i < posts.len()
        invariant
            i <= posts@.len(),
            items@ == index_items(posts@.take(i as int)),
        decreases posts@.len() - i,
    {
        assert(posts@.take(i + 1).drop_last() == posts@.take(i as int));
        assert(posts@.take(i + 1).last() == posts@[i as int]);
        let item = index_item_exec(&posts[i]);
        if i > 0 {
            items.append("\n");
            proof {
                reveal_strlit("\n");
            }
        }
        items.append(item.as_str());
        proof {
            if i == 0 {
                assert(posts@.take(1)[0] == posts@[0]);
                assert(items@ =~= index_item(posts@.take(1)[0]));
            }
        }
        i = i + 1;
    }
    assert(posts@.take(posts@.len() as int) == posts@);
    let upper = uppercase(config.title.as_str());
    let mut r = String::from_str(INDEX_PAGE_0);
    r.append(config.title.as_str());
    r.append(INDEX_PAGE_1);
    r.append(upper.as_str());
    r.append(INDEX_PAGE_2);
    r.append(items.as_str());
    r.append(INDEX_PAGE_3);
    r
}

/// The style sheet of the site; it does not depend on the configuration.
pub fn generate_css(_config: &Config) -> (r: String)
    ensures
        r@ == STYLE_SHEET@,
{
    String::from_str(STYLE_SHEET)
}

} // verus!
