//! HTML document generation.
//!
//! A page document is produced by substituting five placeholders of a
//! template — language, head markup, body markup, script tags and
//! style tags — in that order.  The script and style tags are built
//! from the page's asset lists.

use vstd::prelude::*;

verus! {

/// Every occurrence of `pat` in `s` replaced by `sub`, scanning left
/// to right without overlap.  An empty pattern replaces nothing.
pub open spec fn spec_replace(s: Seq<char>, pat: Seq<char>, sub: Seq<char>) -> Seq<char>
    decreases s.len(),
{
    if pat.len() == 0 || s.len() < pat.len() {
        s
    } else if s.subrange(0, pat.len() as int) == pat {
        sub + spec_replace(s.skip(pat.len() as int), pat, sub)
    } else {
        seq![s[0]] + spec_replace(s.skip(1), pat, sub)
    }
}

/// Replaces every occurrence of `pat` in `s` by `sub`, scanning left
/// to right without overlap.
pub fn replace_all(s: &str, pat: &str, sub: &str) -> (r: String)
    ensures
        r@ == spec_replace(s@, pat@, sub@),
{
    let n = s.unicode_len();
    let np = pat.unicode_len();
    if np == 0 {
        return s.to_owned();
    }
    let mut out = String::new();
    let mut i: usize = 0;
    proof {
        assert(s@.skip(0) =~= s@);
        assert(out@ + spec_replace(s@, pat@, sub@) =~= spec_replace(s@, pat@, sub@));
    }
    while i < n
        invariant
            n == s@.len(),
            np == pat@.len(),
            np > 0,
            0 <= i <= n,
            spec_replace(s@, pat@, sub@) == out@ + spec_replace(s@.skip(i as int), pat@, sub@),
        decreases n - i,
    {
        let ghost pre = out@;
        let ghost tail = s@.skip(i as int);
        if np <= n && i <= n - np && crate::paths::str_eq(s.substring_char(i, i + np), pat) {
            out.append(sub);
            proof {
                assert(tail.subrange(0, np as int) =~= s@.subrange(i as int, i as int + np as int));
                assert(tail.skip(np as int) =~= s@.skip(i as int + np as int));
                assert(spec_replace(tail, pat@, sub@) == sub@ + spec_replace(
                    s@.skip(i as int + np as int),
                    pat@,
                    sub@,
                ));
                assert(pre + spec_replace(tail, pat@, sub@) =~= out@ + spec_replace(
                    s@.skip(i as int + np as int),
                    pat@,
                    sub@,
                ));
            }
            i += np;
        } else {
            out.append(s.substring_char(i, i + 1));
            proof {
                assert(tail[0] == s@[i as int]);
                assert(tail.skip(1) =~= s@.skip(i as int + 1));
                if tail.len() >= np {
                    assert(tail.subrange(0, np as int) =~= s@.subrange(
                        i as int,
                        i as int + np as int,
                    ));
                    assert(tail.subrange(0, np as int) != pat@);
                    assert(spec_replace(tail, pat@, sub@) == seq![tail[0]] + spec_replace(
                        tail.skip(1),
                        pat@,
                        sub@,
                    ));
                } else {
                    assert(spec_replace(tail, pat@, sub@) == tail);
                    assert(spec_replace(tail.skip(1), pat@, sub@) == tail.skip(1));
                    assert(tail =~= seq![tail[0]] + tail.skip(1));
                }
                assert(pre + spec_replace(tail, pat@, sub@) =~= out@ + spec_replace(
                    s@.skip(i as int + 1),
                    pat@,
                    sub@,
                ));
            }
            i += 1;
        }
    }
    proof {
        assert(s@.skip(n as int) =~= Seq::<char>::empty());
        assert(spec_replace(s@.skip(n as int), pat@, sub@) == s@.skip(n as int));
        assert(out@ =~= out@ + s@.skip(n as int));
    }
    out
}

/// The `<script>` tags of a list of asset paths, in order.
pub open spec fn spec_script_tags(v: Seq<Seq<char>>) -> Seq<char>
    decreases v.len(),
{
    if v.len() == 0 {
        Seq::empty()
    } else {
        "<script src=\""@ + v[0] + "\"></script>"@ + spec_script_tags(v.skip(1))
    }
}

/// The `<link>` tags of a list of style paths, in order.
pub open spec fn spec_style_tags(v: Seq<Seq<char>>) -> Seq<char>
    decreases v.len(),
{
    if v.len() == 0 {
        Seq::empty()
    } else {
        "<link rel=\"stylesheet\" href=\""@ + v[0] + "\">"@ + spec_style_tags(v.skip(1))
    }
}

/// The views of a string list.
pub open spec fn spec_strings(v: Seq<String>) -> Seq<Seq<char>> {
    Seq::new(v.len(), |i: int| v[i]@)
}

/// Builds the `<script>` tags of the asset list.
pub fn script_tags(v: &Vec<String>) -> (r: String)
    ensures
        r@ == spec_script_tags(spec_strings(v@)),
{
    let n = v.len();
    let mut out = String::new();
    let mut i: usize = 0;
    proof {
        assert(spec_strings(v@).skip(0) =~= spec_strings(v@));
        assert(out@ + spec_script_tags(spec_strings(v@)) =~= spec_script_tags(spec_strings(v@)));
    }
    while i < n
        invariant
            n == v@.len(),
            0 <= i <= n,
            spec_script_tags(spec_strings(v@)) == out@ + spec_script_tags(
                spec_strings(v@).skip(i as int),
            ),
        decreases n - i,
    {
        let ghost pre = out@;
        let ghost tail = spec_strings(v@).skip(i as int);
        out.append("<script src=\"");
        out.append(v[i].as_str());
        out.append("\"></script>");
        proof {
            assert(tail[0] == v@[i as int]@);
            assert(tail.skip(1) =~= spec_strings(v@).skip(i as int + 1));
            assert(pre + spec_script_tags(tail) =~= out@ + spec_script_tags(
                spec_strings(v@).skip(i as int + 1),
            ));
        }
        i += 1;
    }
    proof {
        assert(spec_strings(v@).skip(n as int) =~= Seq::<Seq<char>>::empty());
        assert(out@ =~= out@ + spec_script_tags(spec_strings(v@).skip(n as int)));
    }
    out
}

/// Builds the `<link>` tags of the style list.
pub fn style_tags(v: &Vec<String>) -> (r: String)
    ensures
        r@ == spec_style_tags(spec_strings(v@)),
{
    let n = v.len();
    let mut out = String::new();
    let mut i: usize = 0;
    proof {
        assert(spec_strings(v@).skip(0) =~= spec_strings(v@));
        assert(out@ + spec_style_tags(spec_strings(v@)) =~= spec_style_tags(spec_strings(v@)));
    }
    while i < n
        invariant
            n == v@.len(),
            0 <= i <= n,
            spec_style_tags(spec_strings(v@)) == out@ + spec_style_tags(
                spec_strings(v@).skip(i as int),
            ),
        decreases n - i,
    {
        let ghost pre = out@;
        let ghost tail = spec_strings(v@).skip(i as int);
        out.append("<link rel=\"stylesheet\" href=\"");
        out.append(v[i].as_str());
        out.append("\">");
        proof {
            assert(tail[0] == v@[i as int]@);
            assert(tail.skip(1) =~= spec_strings(v@).skip(i as int + 1));
            assert(pre + spec_style_tags(tail) =~= out@ + spec_style_tags(
                spec_strings(v@).skip(i as int + 1),
            ));
        }
        i += 1;
    }
    proof {
        assert(spec_strings(v@).skip(n as int) =~= Seq::<Seq<char>>::empty());
        assert(out@ =~= out@ + spec_style_tags(spec_strings(v@).skip(n as int)));
    }
    out
}

/// The document template.  Five placeholders are substituted, in this
/// order: `%LANG%`, `%HEAD%`, `%BODY%`, `%SCRIPTS%`, `%STYLES%`.
pub struct HtmlTemplate(String);

impl HtmlTemplate {
    /// The template text.
    pub closed spec fn spec_text(self) -> Seq<char> {
        self.0@
    }

    /// A template from the given text.
    pub fn new(template: &str) -> (t: Self)
        ensures
            t.spec_text() == template@,
    {
        HtmlTemplate(template.to_owned())
    }
}

impl Default for HtmlTemplate {
    /// The built-in document template.
    fn default() -> (t: Self)
        ensures
            t.spec_text() == spec_default_template(),
    {
        HtmlTemplate::new(
            "<!DOCTYPE html>\n<html lang=\"%LANG%\">\n\n<head>\n    %HEAD%\n    %STYLES%\n</head>\n\n<body>\n    %BODY%\n    %SCRIPTS%\n</body>\n\n</html>\n",
        )
    }
}

/// The text of the built-in document template.
pub open spec fn spec_default_template() -> Seq<char> {
    "<!DOCTYPE html>\n<html lang=\"%LANG%\">\n\n<head>\n    %HEAD%\n    %STYLES%\n</head>\n\n<body>\n    %BODY%\n    %SCRIPTS%\n</body>\n\n</html>\n"@
}

/// The contents a document is generated from.
#[derive(Debug)]
pub struct HtmlProps {
    pub lang: String,
    pub head: String,
    pub body: String,
    pub scripts: Vec<String>,
    pub styles: Vec<String>,
}

impl HtmlProps {
    /// Opens a builder for the props.
    pub fn new() -> (b: HtmlPropsBuilder)
        ensures
            b.lang is None,
            b.head is None,
            b.body is None,
            b.scripts is None,
            b.styles is None,
    {
        HtmlPropsBuilder::new()
    }
}

/// A step-by-step builder for [`HtmlProps`].
#[derive(Debug)]
pub struct HtmlPropsBuilder {
    pub lang: Option<String>,
    pub head: Option<String>,
    pub body: Option<String>,
    pub scripts: Option<Vec<String>>,
    pub styles: Option<Vec<String>>,
}

impl HtmlPropsBuilder {
    /// An empty builder.
    pub fn new() -> (b: Self)
        ensures
            b.lang is None,
            b.head is None,
            b.body is None,
            b.scripts is None,
            b.styles is None,
    {
        HtmlPropsBuilder { lang: None, head: None, body: None, scripts: None, styles: None }
    }

    /// Sets the document language.
    pub fn lang(self, lang: &str) -> (b: Self)
        ensures
            b.lang matches Some(l) && l@ == lang@,
            b.head == self.head,
            b.body == self.body,
            b.scripts == self.scripts,
            b.styles == self.styles,
    {
        HtmlPropsBuilder { lang: Some(lang.to_owned()), ..self }
    }

    /// Sets the head markup.
    pub fn head(self, head: &str) -> (b: Self)
        ensures
            b.head matches Some(h) && h@ == head@,
            b.lang == self.lang,
            b.body == self.body,
            b.scripts == self.scripts,
            b.styles == self.styles,
    {
        HtmlPropsBuilder { head: Some(head.to_owned()), ..self }
    }

    /// Sets the body markup.
    pub fn body(self, body: &str) -> (b: Self)
        ensures
            b.body matches Some(x) && x@ == body@,
            b.lang == self.lang,
            b.head == self.head,
            b.scripts == self.scripts,
            b.styles == self.styles,
    {
        HtmlPropsBuilder { body: Some(body.to_owned()), ..self }
    }

    /// Sets the script asset list.
    pub fn scripts(self, scripts: Vec<String>) -> (b: Self)
        ensures
            b.scripts == Some(scripts),
            b.lang == self.lang,
            b.head == self.head,
            b.body == self.body,
            b.styles == self.styles,
    {
        HtmlPropsBuilder { scripts: Some(scripts), ..self }
    }

    /// Sets the style asset list.
    pub fn styles(self, styles: Vec<String>) -> (b: Self)
        ensures
            b.styles == Some(styles),
            b.lang == self.lang,
            b.head == self.head,
            b.body == self.body,
            b.scripts == self.scripts,
    {
        HtmlPropsBuilder { styles: Some(styles), ..self }
    }

    /// Closes the builder.  The asset lists must have been set; an
    /// unset text field becomes empty.
    pub fn build(self) -> (p: HtmlProps)
        requires
            self.scripts is Some,
            self.styles is Some,
        ensures
            p.lang@ == (match self.lang {
                Option::Some(l) => l@,
                Option::None => Seq::<char>::empty(),
            }),
            p.head@ == (match self.head {
                Option::Some(h) => h@,
                Option::None => Seq::<char>::empty(),
            }),
            p.body@ == (match self.body {
                Option::Some(b) => b@,
                Option::None => Seq::<char>::empty(),
            }),
            p.scripts == self.scripts.unwrap(),
            p.styles == self.styles.unwrap(),
    {
        let lang = match self.lang {
            Some(l) => l,
            None => String::new(),
        };
        let head = match self.head {
            Some(h) => h,
            None => String::new(),
        };
        let body = match self.body {
            Some(b) => b,
            None => String::new(),
        };
        let scripts = match self.scripts {
            Some(s) => s,
            None => Vec::new(),
        };
        let styles = match self.styles {
            Some(s) => s,
            None => Vec::new(),
        };
        HtmlProps { lang, head, body, scripts, styles }
    }
}

/// A generated document.
#[derive(Debug)]
pub struct HtmlOutput(String);

impl View for HtmlOutput {
    type V = Seq<char>;

    closed spec fn view(&self) -> Seq<char> {
        self.0@
    }
}

impl HtmlOutput {
    /// Wraps finished document text.
    pub fn from(html: &str) -> (o: Self)
        ensures
            o@ == html@,
    {
        HtmlOutput(html.to_owned())
    }

    /// The document text.
    pub fn text(&self) -> (r: String)
        ensures
            r@ == self@,
    {
        self.0.clone()
    }
}

/// The document produced by substituting the placeholders of
/// `template` with the given contents, in the fixed order.
pub open spec fn spec_html_doc(
    template: Seq<char>,
    lang: Seq<char>,
    head: Seq<char>,
    body: Seq<char>,
    scripts: Seq<Seq<char>>,
    styles: Seq<Seq<char>>,
) -> Seq<char> {
    spec_replace(
        spec_replace(
            spec_replace(
                spec_replace(spec_replace(template, "%LANG%"@, lang), "%HEAD%"@, head),
                "%BODY%"@,
                body,
            ),
            "%SCRIPTS%"@,
            spec_script_tags(scripts),
        ),
        "%STYLES%"@,
        spec_style_tags(styles),
    )
}

/// Generates a document from a template and its contents.
pub struct HtmlBuilder {
    template: HtmlTemplate,
    props: HtmlProps,
}

impl HtmlBuilder {
    /// The template text handed in.
    pub closed spec fn spec_template(self) -> Seq<char> {
        self.template.spec_text()
    }

    /// The props handed in.
    pub closed spec fn spec_props(self) -> HtmlProps {
        self.props
    }

    /// Pairs a template with its contents.
    pub fn new(template: HtmlTemplate, props: HtmlProps) -> (b: Self)
        ensures
            b.spec_template() == template.spec_text(),
            b.spec_props() == props,
    {
        HtmlBuilder { template, props }
    }

    /// Substitutes the five placeholders of the template with the
    /// props' contents.
    pub fn generate(&self) -> (r: HtmlOutput)
        ensures
            r@ == spec_html_doc(
                self.spec_template(),
                self.spec_props().lang@,
                self.spec_props().head@,
                self.spec_props().body@,
                spec_strings(self.spec_props().scripts@),
                spec_strings(self.spec_props().styles@),
            ),
    {
        let scripts = script_tags(&self.props.scripts);
        let styles = style_tags(&self.props.styles);
        let step1 = replace_all(self.template.0.as_str(), "%LANG%", self.props.lang.as_str());
        let step2 = replace_all(step1.as_str(), "%HEAD%", self.props.head.as_str());
        let step3 = replace_all(step2.as_str(), "%BODY%", self.props.body.as_str());
        let step4 = replace_all(step3.as_str(), "%SCRIPTS%", scripts.as_str());
        let step5 = replace_all(step4.as_str(), "%STYLES%", styles.as_str());
        HtmlOutput(step5)
    }
}

} // verus!
