//! Render-script generation.
//!
//! For every page, the server build synthesizes a small script that
//! imports the shared application shell and the page component, and
//! exports one render function whose name carries the page's numeric
//! ID.  The script text is a fixed template around the two import
//! paths and the ID.

use vstd::prelude::*;
use crate::error::BuildError;
use crate::paths::spec_strip_ext;
use crate::paths::stem_end;
use crate::traits::Generate;

verus! {

/// The decimal digits of `n`, most significant first.
pub open spec fn spec_digits(n: int) -> Seq<char>
    decreases n,
{
    if n <= 0 {
        seq!['0']
    } else if n < 10 {
        seq![spec_digit(n)]
    } else {
        spec_digits(n / 10).push(spec_digit(n % 10))
    }
}

/// The character of one decimal digit.
pub open spec fn spec_digit(d: int) -> char {
    if d == 0 {
        '0'
    } else if d == 1 {
        '1'
    } else if d == 2 {
        '2'
    } else if d == 3 {
        '3'
    } else if d == 4 {
        '4'
    } else if d == 5 {
        '5'
    } else if d == 6 {
        '6'
    } else if d == 7 {
        '7'
    } else if d == 8 {
        '8'
    } else {
        '9'
    }
}

/// The decimal text of a non-negative number.
pub fn u64_to_string(n: u64) -> (r: String)
    ensures
        r@ == spec_digits(n as int),
{
    if n == 0 {
        proof {
            reveal_digit_literals();
        }
        return "0".to_owned();
    }
    let mut r = String::new();
    let mut m = n;
    while m > 0
        invariant
            0 <= m <= n,
            m > 0 ==> spec_digits(n as int) == spec_digits(m as int) + r@,
            m == 0 ==> spec_digits(n as int) == r@,
        decreases m,
    {
        let d = m % 10;
        let c = digit_char(d);
        let ghost pre = r@;
        r = c.to_owned().concat(r.as_str());
        proof {
            assert(r@ =~= seq![spec_digit(d as int)] + pre);
            assert(spec_digits(m as int) == if m >= 10 {
                spec_digits(m as int / 10).push(spec_digit(m as int % 10))
            } else {
                seq![spec_digit(m as int)]
            });
            if m >= 10 {
                assert(spec_digits(m as int) + pre =~= spec_digits(m as int / 10) + r@);
            } else {
                assert(spec_digits(m as int) + pre =~= r@);
            }
        }
        m = m / 10;
    }
    r
}

/// The literal of one digit character.
fn digit_char(d: u64) -> (r: &'static str)
    requires
        d < 10,
    ensures
        r@ == seq![spec_digit(d as int)],
        r@.len() == 1,
{
    proof {
        reveal_digit_literals();
    }
    match d {
        0 => "0",
        1 => "1",
        2 => "2",
        3 => "3",
        4 => "4",
        5 => "5",
        6 => "6",
        7 => "7",
        8 => "8",
        _ => "9",
    }
}

/// Reveals the ten digit literals.
pub proof fn reveal_digit_literals()
    ensures
        "0"@ =~= seq!['0'],
        "1"@ =~= seq!['1'],
        "2"@ =~= seq!['2'],
        "3"@ =~= seq!['3'],
        "4"@ =~= seq!['4'],
        "5"@ =~= seq!['5'],
        "6"@ =~= seq!['6'],
        "7"@ =~= seq!['7'],
        "8"@ =~= seq!['8'],
        "9"@ =~= seq!['9'],
{
    reveal_strlit("0");
    reveal_strlit("1");
    reveal_strlit("2");
    reveal_strlit("3");
    reveal_strlit("4");
    reveal_strlit("5");
    reveal_strlit("6");
    reveal_strlit("7");
    reveal_strlit("8");
    reveal_strlit("9");
}

/// The text of the render script for the shell at `app`, the page at
/// `page` (both without their extensions), and the function ID `id`.
pub open spec fn spec_render_script(app: Seq<char>, page: Seq<char>, id: int) -> Seq<char> {
    "import App from \""@ + app + "\"\nimport Page from \""@ + page
        + "\"\nimport { renderToString } from \"react-dom/server\"\nimport React from \"react\"\n\nexport function render_"@
        + spec_digits(id) + "() {\n    return renderToString(<App Component={Page} />);\n}\n"@
}

/// Builds the render-script text for the given import paths (their
/// extensions already stripped) and function ID.
pub fn render_script(app: &str, page: &str, id: u64) -> (r: String)
    ensures
        r@ == spec_render_script(app@, page@, id as int),
{
    let mut out = "import App from \"".to_owned();
    out.append(app);
    out.append("\"\nimport Page from \"");
    out.append(page);
    out.append(
        "\"\nimport { renderToString } from \"react-dom/server\"\nimport React from \"react\"\n\nexport function render_",
    );
    let digits = u64_to_string(id);
    out.append(digits.as_str());
    out.append("() {\n    return renderToString(<App Component={Page} />);\n}\n");
    out
}

/// A render-script generator for one page.  The function ID is
/// assigned by the caller: the build session hands out a
/// monotonically increasing sequence, so that IDs are deterministic
/// and collision-free within a session.
pub struct ServerRender {
    app_path: String,
    page_path: String,
    func_id: i64,
}

impl ServerRender {
    #[verifier::type_invariant]
    spec fn inv(self) -> bool {
        self.func_id >= 0
    }

    /// The shell path handed in.
    pub closed spec fn spec_app(self) -> Seq<char> {
        self.app_path@
    }

    /// The page path handed in.
    pub closed spec fn spec_page(self) -> Seq<char> {
        self.page_path@
    }

    /// The function ID handed in.
    pub closed spec fn spec_func_id(self) -> int {
        self.func_id as int
    }

    /// Remembers the shell and page import paths and the assigned
    /// function ID, which is never negative.
    pub fn new(app_path: &str, page_path: &str, func_id: i64) -> (s: Self)
        requires
            func_id >= 0,
        ensures
            s.spec_app() == app_path@,
            s.spec_page() == page_path@,
            s.spec_func_id() == func_id as int,
    {
        ServerRender {
            app_path: app_path.to_owned(),
            page_path: page_path.to_owned(),
            func_id,
        }
    }
}

impl Generate for ServerRender {
    type Output = (i64, String);

    /// Renders the script template around the assigned ID and the two
    /// paths, their extensions stripped.
    fn generate(&self) -> (r: Result<(i64, String), BuildError>)
        ensures
            r matches Ok((id, script)) && id as int == self.spec_func_id() && id >= 0 && script@
                == spec_render_script(
                spec_strip_ext(self.spec_app()),
                spec_strip_ext(self.spec_page()),
                id as int,
            ),
    {
        proof {
            use_type_invariant(self);
        }
        let app_end = stem_end(self.app_path.as_str());
        let page_end = stem_end(self.page_path.as_str());
        let app = self.app_path.as_str().substring_char(0, app_end);
        let page = self.page_path.as_str().substring_char(0, page_end);
        let script = render_script(app, page, self.func_id as u64);
        Ok((self.func_id, script))
    }
}

} // verus!
