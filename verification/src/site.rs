//! Pure helpers of the static-site generator: URL path normalization and
//! the shared HTML page layout.

use vstd::prelude::*;
use crate::text::{chars_to_string, clone_string, str_chars, trim_chars, trim_spec};

verus! {

pub const HEAD_TEXT: &'static str = "<meta charset=\"utf-8\" />\n<meta name=\"viewport\" content=\"width=device-width, initial-scale=1\" />\n<script>\n  window.tailwind = window.tailwind || {};\n  tailwind.config = {\n    theme: {\n      extend: {\n        colors: {\n          holly: '#064e3b',\n          pine: '#065f46',\n          candy: '#f43f5e',\n          gold: '#f59e0b',\n          snow: '#f0f9ff',\n        },\n        boxShadow: {\n          glow: '0 10px 30px rgba(244,63,94,0.25)',\n        }\n      }\n    }\n  }\n</script>\n<script src=\"https://cdn.tailwindcss.com?plugins=typography\"></script>\n<link rel=\"stylesheet\" href=\"https://cdnjs.cloudflare.com/ajax/libs/highlight.js/11.9.0/styles/github-dark.min.css\">\n<script src=\"https://cdnjs.cloudflare.com/ajax/libs/highlight.js/11.9.0/highlight.min.js\"></script>\n<link rel=\"preconnect\" href=\"https://fonts.gstatic.com\" crossorigin>\n<link href=\"https://fonts.googleapis.com/css2?family=Inter:wght@400;600;800&display=swap\" rel=\"stylesheet\">\n<style>\n  :root { --snow:#f0f9ff; --holly:#064e3b; --pine:#065f46; --candy:#f43f5e; --gold:#f59e0b; --header-h: 88px; }\n  html { scroll-behavior: smooth; scroll-padding-top: var(--header-h); }\n  .xmas-title { font-weight: 800; }\n  .body-font { font-family: 'Inter', system-ui, -apple-system, Segoe UI, Roboto, Ubuntu, Cantarell, 'Helvetica Neue', Arial, 'Apple Color Emoji', 'Segoe UI Emoji'; }\n  .paper { background: linear-gradient(180deg, rgba(255,255,255,0.9), rgba(255,255,255,0.95)); box-shadow: 0 10px 30px rgba(0,0,0,0.08); }\n  .paper-dark { background: linear-gradient(180deg, rgba(20,24,35,0.9), rgba(15,20,32,0.95)); box-shadow: 0 10px 30px rgba(0,0,0,0.25); }\n  .journal-line { border-left: 3px solid var(--gold); }\n  .code { font-family: ui-monospace, SFMono-Regular, Menlo, Monaco, Consolas, 'Liberation Mono', 'Courier New', monospace; }\n  .tab { border: 0; padding: 10px 16px; border-radius: 9999px; transition: background .15s ease, color .15s ease; color: rgba(255,255,255,0.85); cursor: pointer; font-weight: 600; }\n  .tab:hover { background: rgba(255,255,255,0.08); color: #fff; }\n  .tab-active { background: #ffffff; color: #0f172a; box-shadow: 0 1px 2px rgba(0,0,0,0.12); }\n  .theme-green .tab-active { background:#10b981; color:#0b1220; }\n  .journal-body { color: rgba(255,255,255,0.75); }\n  h1, h2, h3, h4, h5, h6 { scroll-margin-top: var(--header-h); }\n  .snow, .snow2 {\n    pointer-events: none; position: fixed; inset: 0; top: var(--header-h); z-index: 0; opacity: .22;\n    background-image: radial-gradient(2px 2px at 20px 30px, rgba(255,255,255,0.9) 2px, transparent 3px),\n                      radial-gradient(3px 3px at 40px 70px, rgba(255,255,255,0.6) 2px, transparent 3px),\n                      radial-gradient(2px 2px at 50px 160px, rgba(255,255,255,0.7) 2px, transparent 3px),\n                      radial-gradient(3px 3px at 90px 40px, rgba(255,255,255,0.6) 2px, transparent 3px),\n                      radial-gradient(2px 2px at 130px 80px, rgba(255,255,255,0.75) 2px, transparent 3px);\n    background-size: 200px 200px;\n    animation: snow 25s linear infinite;\n  }\n  @media (min-width: 1024px) { .sticky-toc { position: sticky; top: calc(var(--header-h) + 1rem); } }\n  .snow2 { opacity: .18; animation-duration: 45s; background-size: 300px 300px; }\n  @keyframes snow { from { background-position: 0 0, 0 0, 0 0, 0 0, 0 0; } to { background-position: 0 1000px, 0 800px, 0 600px, 0 400px, 0 200px; } }\n</style>";

pub const PAGE_0: &'static str = "<!doctype html>\n<html lang=\"en\" class=\"h-full\">\n<head>\n  <title>";

pub const PAGE_1: &'static str = "</title>\n  ";

pub const PAGE_2: &'static str = "\n</head>\n<body class=\"min-h-screen body-font bg-gradient-to-b from-[#0B1220] via-[#0f1a2d] to-[#0B1220] text-white relative theme-green\">\n  <div class=\"snow\"></div>\n  <div class=\"snow2\"></div>\n  <header class=\"px-6 md:px-10 py-2 md:py-3 border-b border-white/10 backdrop-blur sticky top-0 bg-black/20 relative z-50\">\n    <div class=\"max-w-7xl mx-auto flex items-center gap-3\">\n      <a href=\"";

pub const PAGE_3: &'static str = "\" class=\"inline-flex items-center\">\n        <img src=\"";

pub const PAGE_4: &'static str = "\" alt=\"elf-lang\" class=\"h-12 md:h-14 w-auto\"/>\n      </a>\n      <div class=\"ml-auto flex items-center gap-3\">\n        <nav class=\"hidden md:flex items-center gap-4\">\n          <a class=\"text-white/80 hover:text-white text-sm leading-none\" href=\"";

pub const PAGE_5: &'static str = "\">Home</a>\n          <a class=\"text-white/80 hover:text-white text-sm leading-none\" href=\"";

pub const PAGE_6: &'static str = "\">Language</a>\n          <a class=\"text-white/80 hover:text-white text-sm leading-none\" href=\"";

pub const PAGE_7: &'static str = "\">Tasks</a>\n          <a class=\"text-white/80 hover:text-white text-sm leading-none\" href=\"https://github.com/eddmann/santa-lang-workshop\" target=\"_blank\" rel=\"noopener noreferrer\">GitHub</a>\n        </nav>\n        <button id=\"nav-toggle\" class=\"md:hidden p-2 rounded bg-white/10 hover:bg-white/20 text-white/80\" aria-expanded=\"false\" aria-controls=\"mobile-nav\" aria-label=\"Toggle menu\">\n          <svg xmlns=\"http://www.w3.org/2000/svg\" class=\"h-6 w-6\" fill=\"none\" viewBox=\"0 0 24 24\" stroke=\"currentColor\"><path stroke-linecap=\"round\" stroke-linejoin=\"round\" stroke-width=\"2\" d=\"M4 6h16M4 12h16M4 18h16\"/></svg>\n        </button>\n      </div>\n    </div>\n  </header>\n  <div id=\"mobile-nav\" class=\"md:hidden px-6 md:px-10 py-4 bg-gradient-to-b from-black/95 to-black/90 backdrop-blur-xl fixed left-0 right-0 z-40 shadow-2xl border-t border-white/10\" style=\"display:none\">\n    <nav class=\"space-y-1\">\n      <a class=\"flex items-center py-3 px-4 rounded-lg text-white/80 hover:text-white hover:bg-white/10 text-sm font-medium transition-all duration-200 hover:translate-x-1 group\" href=\"";

pub const PAGE_8: &'static str = "\">\n        <div class=\"w-2 h-2 rounded-full bg-emerald-400 mr-3 group-hover:bg-emerald-300 transition-colors\"></div>\n        Home\n      </a>\n      <a class=\"flex items-center py-3 px-4 rounded-lg text-white/80 hover:text-white hover:bg-white/10 text-sm font-medium transition-all duration-200 hover:translate-x-1 group\" href=\"";

pub const PAGE_9: &'static str = "\">\n        <div class=\"w-2 h-2 rounded-full bg-blue-400 mr-3 group-hover:bg-blue-300 transition-colors\"></div>\n        Language\n      </a>\n      <a class=\"flex items-center py-3 px-4 rounded-lg text-white/80 hover:text-white hover:bg-white/10 text-sm font-medium transition-all duration-200 hover:translate-x-1 group\" href=\"";

pub const PAGE_10: &'static str = "\">\n        <div class=\"w-2 h-2 rounded-full bg-amber-400 mr-3 group-hover:bg-amber-300 transition-colors\"></div>\n        Tasks\n      </a>\n      <a class=\"flex items-center py-3 px-4 rounded-lg text-white/80 hover:text-white hover:bg-white/10 text-sm font-medium transition-all duration-200 hover:translate-x-1 group\" href=\"https://github.com/eddmann/santa-lang-workshop\" target=\"_blank\" rel=\"noopener noreferrer\">\n        <div class=\"w-2 h-2 rounded-full bg-purple-400 mr-3 group-hover:bg-purple-300 transition-colors\"></div>\n        GitHub\n        <svg class=\"w-3 h-3 ml-auto opacity-60 group-hover:opacity-100 transition-opacity\" fill=\"currentColor\" viewBox=\"0 0 20 20\">\n          <path fill-rule=\"evenodd\" d=\"M10.293 3.293a1 1 0 011.414 0l6 6a1 1 0 010 1.414l-6 6a1 1 0 01-1.414-1.414L14.586 11H3a1 1 0 110-2h11.586l-4.293-4.293a1 1 0 010-1.414z\" clip-rule=\"evenodd\"></path>\n        </svg>\n      </a>\n    </nav>\n  </div>\n  <main class=\"max-w-7xl mx-auto px-6 md:px-10 py-10 relative z-0\">\n    ";

pub const PAGE_11: &'static str = "\n  </main>\n  <footer class=\"px-6 md:px-10 py-10 text-white/50 text-sm relative z-0 text-center\">© 2025, <a class=\"text-white/70 hover:text-white no-underline hover:underline\" href=\"https://eddmann.com/\" target=\"_blank\" rel=\"noopener noreferrer\">Edd Mann</a></footer>\n</body>\n</html>";

pub const PAGE_SCRIPT: &'static str = "\n<script>\n  (function() {\n    const btn = document.getElementById('nav-toggle');\n    const menu = document.getElementById('mobile-nav');\n    if (btn && menu) {\n      menu.style.maxHeight = '0';\n      menu.style.overflow = 'hidden';\n      menu.style.display = 'block';\n      menu.style.transition = 'max-height 0.3s ease-out, opacity 0.2s ease-out';\n      menu.style.opacity = '0';\n      \n      btn.addEventListener('click', function() {\n        const isOpen = menu.style.maxHeight !== '0px' && menu.style.maxHeight !== '';\n        if (isOpen) {\n          menu.style.maxHeight = '0';\n          menu.style.opacity = '0';\n          btn.setAttribute('aria-expanded', 'false');\n        } else {\n          menu.style.maxHeight = '400px';\n          menu.style.opacity = '1';\n          btn.setAttribute('aria-expanded', 'true');\n        }\n      });\n    }\n  })();\n  if (window.hljs && window.hljs.highlightAll) { window.hljs.highlightAll(); }\n</script>";

/// Escaping for HTML text content: `&` as `&amp;`, `<` as `&lt;` and `>`
/// as `&gt;`; every other character is kept.
pub open spec fn html_escape_text(s: Seq<char>) -> Seq<char>
    decreases s.len(),
{
    if s.len() == 0 {
        Seq::empty()
    } else {
        let rest = html_escape_text(s.skip(1));
        if s[0] == '&' {
            "&amp;"@ + rest
        } else if s[0] == '<' {
            "&lt;"@ + rest
        } else if s[0] == '>' {
            "&gt;"@ + rest
        } else {
            seq![s[0]] + rest
        }
    }
}

/// Relies on `html_escape::encode_text`, which escapes exactly `&`, `<`
/// and `>` in text used as regular HTML text.
#[verifier::external_body]
fn encode_text(s: &str) -> (r: String)
    ensures
        r@ == html_escape_text(s@),
{
    html_escape::encode_text(s).into_owned()
}

/// The fixed `<head>` markup of every generated page.
pub open spec fn tailwind_head_text() -> Seq<char> {
    HEAD_TEXT@
}

pub fn tailwind_head() -> (r: String)
    ensures
        r@ == tailwind_head_text(),
{
    String::from_str(HEAD_TEXT)
}

pub open spec fn strip_trailing_slashes(s: Seq<char>) -> Seq<char>
    decreases s.len(),
{
    if s.len() > 0 && s.last() == '/' {
        strip_trailing_slashes(s.drop_last())
    } else {
        s
    }
}

/// A base path brought to canonical form: empty for the root (or
/// whitespace, or a bare `/`), else with a single leading slash and no
/// trailing slash.
pub open spec fn normalize_base_path_spec(input: Seq<char>) -> Seq<char> {
    let t = trim_spec(input);
    if t.len() == 0 || t == "/"@ {
        Seq::empty()
    } else if t[0] == '/' {
        strip_trailing_slashes(t)
    } else {
        strip_trailing_slashes(seq!['/'] + t)
    }
}

pub fn normalize_base_path(input: &str) -> (r: String)
    ensures
        r@ == normalize_base_path_spec(input@),
{
    let v = str_chars(input);
    let t = trim_chars(&v);
    proof {
        reveal_strlit("/");
        assert("/"@ =~= seq!['/']);
    }
    if t.len() == 0 {
        proof {
            assert(t@ =~= Seq::<char>::empty());
        }
        return String::new();
    }
    if t.len() == 1 && t[0] == '/' {
        proof {
            assert(t@ =~= "/"@);
        }
        return String::new();
    }
    proof {
        if t@ == "/"@ {
            assert(t@.len() == 1 && t@[0] == '/');
        }
    }
    let mut w: Vec<char> = Vec::new();
    if t[0] != '/' {
        w.push('/');
    }
    let n = t.len();
    let mut i: usize = 0;
    while i < n
        invariant
            i <= n,
            n == t@.len(),
            w@ == if t@[0] != '/' {
                seq!['/'] + t@.subrange(0, i as int)
            } else {
                t@.subrange(0, i as int)
            },
        decreases n - i,
    {
        w.push(t[i]);
        proof {
            assert(t@.subrange(0, i as int).push(t@[i as int]) =~= t@.subrange(0, i + 1 as int));
            if t@[0] != '/' {
                assert((seq!['/'] + t@.subrange(0, i as int)).push(t@[i as int]) =~= seq!['/']
                    + t@.subrange(0, i + 1 as int));
            }
        }
        i += 1;
    }
    let ghost w0 = w@;
    proof {
        assert(t@.subrange(0, n as int) =~= t@);
        if t@[0] != '/' {
            assert(w@ =~= seq!['/'] + t@);
        } else {
            assert(w@ =~= t@);
        }
    }
    let m = w.len();
    let mut hi: usize = m;
    proof {
        assert(w0.subrange(0, m as int) =~= w0);
    }
    while hi > 0 && w[hi - 1] == '/'
        invariant
            hi <= m,
            m == w0.len(),
            w@ == w0,
            strip_trailing_slashes(w0) == strip_trailing_slashes(w0.subrange(0, hi as int)),
        decreases hi,
    {
        proof {
            let cur = w0.subrange(0, hi as int);
            assert(cur.last() == w0[hi - 1 as int]);
            assert(cur.drop_last() =~= w0.subrange(0, hi - 1 as int));
        }
        hi -= 1;
    }
    proof {
        let cur = w0.subrange(0, hi as int);
        if hi > 0 {
            assert(cur.last() == w0[hi - 1 as int]);
        }
        assert(strip_trailing_slashes(cur) == cur);
    }
    let mut out: Vec<char> = Vec::new();
    let mut j: usize = 0;
    while j < hi
        invariant
            j <= hi <= m,
            m == w0.len(),
            w@ == w0,
            out@ == w0.subrange(0, j as int),
        decreases hi - j,
    {
        out.push(w[j]);
        proof {
            assert(out@ =~= w0.subrange(0, j + 1 as int));
        }
        j += 1;
    }
    chars_to_string(&out)
}

/// A site-internal URL: the path stripped of a leading slash, rooted under
/// the normalized base path (or under `/` when there is none).
pub open spec fn base_url_spec(base: Seq<char>, path: Seq<char>) -> Seq<char> {
    let b = normalize_base_path_spec(base);
    let p = if path.len() > 0 && path[0] == '/' {
        path.skip(1)
    } else {
        path
    };
    if b.len() == 0 {
        "/"@ + p
    } else {
        b + "/"@ + p
    }
}

pub fn base_url(base: &str, path: &str) -> (r: String)
    ensures
        r@ == base_url_spec(base@, path@),
{
    let b = normalize_base_path(base);
    let n = path.unicode_len();
    let p: &str = if n > 0 && path.get_char(0) == '/' {
        let q = path.substring_char(1, n);
        proof {
            assert(q@ =~= path@.skip(1));
        }
        q
    } else {
        path
    };
    if b.as_str().unicode_len() == 0 {
        proof {
            assert(b@ =~= Seq::<char>::empty());
        }
        let mut r = String::from_str("/");
        r.append(p);
        r
    } else {
        let mut r = b;
        r.append("/");
        r.append(p);
        r
    }
}

/// The complete HTML page around a body: title in the head, the shared
/// chrome with home, language and tasks links resolved against the base
/// path, then the body and the navigation script.
pub open spec fn layout_with_base_spec(title: Seq<char>, body: Seq<char>, base: Seq<char>) -> Seq<
    char,
> {
    let nb = normalize_base_path_spec(base);
    let logo = base_url_spec(base, "logo-light.png"@);
    let home = if nb.len() == 0 {
        "/"@
    } else {
        nb + "/"@
    };
    let lang = base_url_spec(base, "language"@) + "/"@;
    let tasks = base_url_spec(base, "tasks"@) + "/"@;
    PAGE_0@ + html_escape_text(title) + PAGE_1@ + tailwind_head_text() + PAGE_2@ + home + PAGE_3@
        + logo + PAGE_4@ + home + PAGE_5@ + lang + PAGE_6@ + tasks + PAGE_7@ + home + PAGE_8@ + lang
        + PAGE_9@ + tasks + PAGE_10@ + body + PAGE_SCRIPT@ + PAGE_11@
}

pub fn layout_with_base(title: &str, body: &str, base_path: &str) -> (r: String)
    ensures
        r@ == layout_with_base_spec(title@, body@, base_path@),
{
    let nb = normalize_base_path(base_path);
    let logo = base_url(base_path, "logo-light.png");
    let home = if nb.as_str().unicode_len() == 0 {
        proof {
            assert(nb@ =~= Seq::<char>::empty());
        }
        String::from_str("/")
    } else {
        let mut h = clone_string(&nb);
        h.append("/");
        h
    };
    let mut lang = base_url(base_path, "language");
    lang.append("/");
    let mut tasks = base_url(base_path, "tasks");
    tasks.append("/");
    let esc_title = encode_text(title);
    let mut out = String::from_str(PAGE_0);
    out.append(esc_title.as_str());
    out.append(PAGE_1);
    out.append(tailwind_head().as_str());
    out.append(PAGE_2);
    out.append(home.as_str());
    out.append(PAGE_3);
    out.append(logo.as_str());
    out.append(PAGE_4);
    out.append(home.as_str());
    out.append(PAGE_5);
    out.append(lang.as_str());
    out.append(PAGE_6);
    out.append(tasks.as_str());
    out.append(PAGE_7);
    out.append(home.as_str());
    out.append(PAGE_8);
    out.append(lang.as_str());
    out.append(PAGE_9);
    out.append(tasks.as_str());
    out.append(PAGE_10);
    out.append(body);
    out.append(PAGE_SCRIPT);
    out.append(PAGE_11);
    out
}

/// The page layout used for the index, language and tasks pages.
pub fn layout(title: &str, body: &str, base_path: &str) -> (r: String)
    ensures
        r@ == layout_with_base_spec(title@, body@, base_path@),
{
    layout_with_base(title, body, base_path)
}

/// The page layout used for per-implementation pages.
pub fn layout_impl(title: &str, body: &str, base_path: &str) -> (r: String)
    ensures
        r@ == layout_with_base_spec(title@, body@, base_path@),
{
    layout_with_base(title, body, base_path)
}

} // verus!
