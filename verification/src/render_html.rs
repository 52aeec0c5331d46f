//! Rendering to HTML: the configuration, escaping, and the markup of a run of text.

use vstd::prelude::*;
use vstd::string::StringSliceAdditionalSpecFns;
use vstd::utf8::encode_utf8;
use crate::document::join;
use crate::document::joined;
use crate::document::TextRun;
use crate::document::TextRunView;
use crate::text::ascii_chars;
use crate::text::ascii_string;
use crate::text::attr_value;
use crate::text::concat;
use crate::text::decimal_digits;
use crate::text::decimal_string;
use crate::text::lemma_decimal_digits_ascii;
use crate::text::lit;
use crate::text::push_bytes;
use crate::text::utf8_lossy;

verus! {

/// How HTML is rendered.
#[derive(Debug, Clone)]
pub struct HtmlConfig {
    /// Whether images and fonts are embedded.
    pub embed_resources: bool,
    /// Whether a style sheet is included.
    pub include_styles: bool,
    /// Whether the layout adapts to the width of the window.
    pub responsive: bool,
    /// Style rules of the caller's own.
    pub custom_css: Option<String>,
}

impl Default for HtmlConfig {
    fn default() -> (r: HtmlConfig)
        ensures
            r.embed_resources,
            r.include_styles,
            r.responsive,
            r.custom_css is None,
    {
        HtmlConfig { embed_resources: true, include_styles: true, responsive: true, custom_css: None }
    }
}

/// What stands for a byte in HTML: an entity for `&`, `<`, `>`, `"` and `'`, the byte
/// itself for any other.
pub open spec fn escaped_byte(b: u8) -> Seq<u8> {
    if b == 0x26 {
        lit("&amp;")
    } else if b == 0x3C {
        lit("&lt;")
    } else if b == 0x3E {
        lit("&gt;")
    } else if b == 0x22 {
        lit("&quot;")
    } else if b == 0x27 {
        lit("&#x27;")
    } else {
        seq![b]
    }
}

/// The bytes from index `from` on, escaped, behind `acc`.
pub open spec fn escape_from(s: Seq<u8>, from: int, acc: Seq<u8>) -> Seq<u8>
    decreases s.len() - from,
{
    if from < 0 || from >= s.len() {
        acc
    } else {
        escape_from(s, from + 1, acc + escaped_byte(s[from]))
    }
}

/// A text with the characters that HTML gives a meaning replaced by entities.
pub open spec fn spec_html_escape(text: Seq<char>) -> Seq<char> {
    utf8_lossy(escape_from(encode_utf8(text), 0, Seq::empty()))
}

/// Escapes a text for HTML.
pub fn html_escape(text: &str) -> (r: String)
    ensures
        r@ == spec_html_escape(text@),
{
    let bytes = text.as_bytes();
    let mut out: Vec<u8> = Vec::new();
    let mut i: usize = 0;
    while i < bytes.len()
        invariant
            i <= bytes.len(),
            escape_from(bytes@, i as int, out@) == escape_from(bytes@, 0, Seq::empty()),
        decreases bytes.len() - i,
    {
        let b = bytes[i];
        if b == 0x26 {
            push_bytes(&mut out, "&amp;".as_bytes());
        } else if b == 0x3C {
            push_bytes(&mut out, "&lt;".as_bytes());
        } else if b == 0x3E {
            push_bytes(&mut out, "&gt;".as_bytes());
        } else if b == 0x22 {
            push_bytes(&mut out, "&quot;".as_bytes());
        } else if b == 0x27 {
            push_bytes(&mut out, "&#x27;".as_bytes());
        } else {
            let ghost before = out@;
            out.push(b);
            assert(out@ =~= before + seq![b]);
        }
        i += 1;
    }
    attr_value(out.as_slice())
}

/// The digits behind the decimal point of a number of hundredths: none for a whole number,
/// one where that says it, else two.
pub open spec fn fraction_digits(hundredths: nat) -> Seq<u8> {
    let f = hundredths % 100;
    if f == 0 {
        Seq::empty()
    } else if f % 10 == 0 {
        seq![0x2Eu8, (0x30 + f / 10) as u8]
    } else {
        seq![0x2Eu8, (0x30 + f / 10) as u8, (0x30 + f % 10) as u8]
    }
}

/// The bytes of a font size in points, given in hundredths of a point, written as short
/// as it can be: `12`, `10.5`, `10.25`.
pub open spec fn points_bytes(size: i64) -> Seq<u8> {
    let magnitude: nat = if size < 0 {
        (-size) as nat
    } else {
        size as nat
    };
    let sign: Seq<u8> = if size < 0 {
        seq![0x2Du8]
    } else {
        Seq::empty()
    };
    sign + decimal_digits(magnitude / 100) + fraction_digits(magnitude)
}

fn points_string(size: i64) -> (r: String)
    ensures
        r@ == ascii_chars(points_bytes(size)),
{
    let magnitude: u64 = if size < 0 {
        if size == i64::MIN {
            0x8000_0000_0000_0000
        } else {
            (-size) as u64
        }
    } else {
        size as u64
    };
    let mut out: Vec<u8> = Vec::new();
    if size < 0 {
        out.push(0x2D);
    }
    let whole = decimal_string(magnitude / 100);
    proof {
        lemma_decimal_digits_ascii((magnitude / 100) as nat);
        crate::text::lemma_ascii_decode(decimal_digits((magnitude / 100) as nat));
    }
    let whole_text = whole.as_str();
    assert(whole_text.spec_bytes() == decimal_digits((magnitude / 100) as nat));
    push_bytes(&mut out, whole_text.as_bytes());
    let f: u64 = magnitude % 100;
    if f != 0 {
        out.push(0x2E);
        out.push(0x30 + (f / 10) as u8);
        if f % 10 != 0 {
            out.push(0x30 + (f % 10) as u8);
        }
    }
    assert(out@ =~= points_bytes(size));
    assert(crate::text::is_ascii_bytes(out@)) by {
        lemma_decimal_digits_ascii((magnitude / 100) as nat);
        assert forall|i: int| 0 <= i < out@.len() implies #[trigger] out@[i] < 0x80 by {
            let sign_len: int = if size < 0 {
                1
            } else {
                0
            };
            let digits = decimal_digits((magnitude / 100) as nat);
            if sign_len <= i < sign_len + digits.len() {
                assert(out@[i] == digits[i - sign_len]);
            }
        }
    }
    ascii_string(out.as_slice())
}

/// The inline style rules of a run, in the order font family, font size, colour and
/// background colour, each only where the run's style sets it.
pub open spec fn run_style_rules(run: TextRunView) -> Seq<Seq<char>> {
    let family: Seq<Seq<char>> = match run.style.font_family {
        Some(f) => seq!["font-family: "@ + spec_html_escape(f)],
        None => Seq::empty(),
    };
    let size: Seq<Seq<char>> = match run.style.font_size {
        Some(s) => seq!["font-size: "@ + ascii_chars(points_bytes(s)) + "pt"@],
        None => Seq::empty(),
    };
    let color: Seq<Seq<char>> = match run.style.color {
        Some(c) => seq!["color: "@ + spec_html_escape(c)],
        None => Seq::empty(),
    };
    let background: Seq<Seq<char>> = match run.style.background_color {
        Some(c) => seq!["background-color: "@ + spec_html_escape(c)],
        None => Seq::empty(),
    };
    family + size + color + background
}

/// `inner` between an opening and a closing tag, where `wanted` holds; else `inner`.
pub open spec fn wrapped(inner: Seq<char>, wanted: bool, open: Seq<char>, close: Seq<char>) -> Seq<
    char,
> {
    if wanted {
        open + inner + close
    } else {
        inner
    }
}

/// The markup of a run of text: its escaped text, inside the tags for bold, italic,
/// underline and strike-through that its style asks for, inside a `span` that carries its
/// inline style rules where it has any.
pub open spec fn spec_render_text_run(run: TextRunView) -> Seq<char> {
    let marked = wrapped(
        wrapped(
            wrapped(
                wrapped(spec_html_escape(run.text), run.style.bold, "<strong>"@, "</strong>"@),
                run.style.italic,
                "<em>"@,
                "</em>"@,
            ),
            run.style.underline,
            "<u>"@,
            "</u>"@,
        ),
        run.style.strikethrough,
        "<s>"@,
        "</s>"@,
    );
    let rules = run_style_rules(run);
    if rules.len() > 0 {
        "<span style=\""@ + joined(rules, "; "@) + "\">"@ + marked + "</span>"@
    } else {
        marked
    }
}

fn wrap(inner: String, wanted: bool, open: &str, close: &str) -> (r: String)
    ensures
        r@ == wrapped(inner@, wanted, open@, close@),
{
    if wanted {
        let head = concat(open, inner.as_str());
        concat(head.as_str(), close)
    } else {
        inner
    }
}

/// Renders documents to HTML.
#[derive(Debug)]
pub struct HtmlRenderer {
    config: HtmlConfig,
}

impl HtmlRenderer {
    /// The configuration of the renderer.
    pub closed spec fn spec_config(&self) -> HtmlConfig {
        self.config
    }

    /// A renderer with the default configuration.
    pub fn new() -> (r: HtmlRenderer)
        ensures
            r.spec_config().embed_resources,
            r.spec_config().include_styles,
            r.spec_config().responsive,
            r.spec_config().custom_css is None,
    {
        HtmlRenderer { config: HtmlConfig::default() }
    }

    /// A renderer with the given configuration.
    pub fn with_config(config: HtmlConfig) -> (r: HtmlRenderer)
        ensures
            r.spec_config() == config,
    {
        HtmlRenderer { config }
    }

    /// The configuration of the renderer.
    pub fn config(&self) -> (r: &HtmlConfig)
        ensures
            *r == self.spec_config(),
    {
        &self.config
    }

    /// The markup of a run of text.
    pub fn render_text_run(&self, run: &TextRun) -> (r: String)
        ensures
            r@ == spec_render_text_run(run.deep_view()),
    {
        let mut rules: Vec<String> = Vec::new();
        match &run.style.font_family {
            Some(f) => {
                let rule = concat("font-family: ", html_escape(f.as_str()).as_str());
                rules.push(rule);
            },
            None => {},
        }
        match run.style.font_size {
            Some(s) => {
                let head = concat("font-size: ", points_string(s).as_str());
                let rule = concat(head.as_str(), "pt");
                rules.push(rule);
            },
            None => {},
        }
        match &run.style.color {
            Some(c) => {
                let rule = concat("color: ", html_escape(c.as_str()).as_str());
                rules.push(rule);
            },
            None => {},
        }
        match &run.style.background_color {
            Some(c) => {
                let rule = concat("background-color: ", html_escape(c.as_str()).as_str());
                rules.push(rule);
            },
            None => {},
        }
        assert(rules.deep_view() =~= run_style_rules(run.deep_view()));
        let text = html_escape(run.text.as_str());
        let bold = wrap(text, run.style.bold, "<strong>", "</strong>");
        let italic = wrap(bold, run.style.italic, "<em>", "</em>");
        let underline = wrap(italic, run.style.underline, "<u>", "</u>");
        let marked = wrap(underline, run.style.strikethrough, "<s>", "</s>");
        if rules.len() != 0 {
            let a = concat("<span style=\"", join(&rules, "; ").as_str());
            let b = concat(a.as_str(), "\">");
            let c = concat(b.as_str(), marked.as_str());
            let d = concat(c.as_str(), "</span>");
            assert(d@ =~= "<span style=\""@ + joined(rules.deep_view(), "; "@) + "\">"@ + marked@
                + "</span>"@);
            d
        } else {
            marked
        }
    }
}

} // verus!
