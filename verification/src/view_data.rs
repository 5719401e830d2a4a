//! The view-data debug comment embedded in rendered HTML, and the error
//! page shown in place of a template that could not be rendered.
//!
//! A page renders one view value; the same value, encoded as JSON, is
//! embedded as `<!-- view-data ... -->` so that view-source shows exactly
//! the data the page used. A full page carries the comment just before the
//! last `</body>` (never before `<!doctype>`, which could trigger quirks
//! mode); a fragment carries it at its head.
use vstd::prelude::*;
use vstd::string::*;
use crate::text::{chars_of, last_occurrence, lemma_last_occurrence, push_range, rfind, occurs_at};

verus! {

/// `json` with a space put between every two adjacent dashes, so that no
/// two dashes stay next to each other: `a--b` becomes `a- -b` and `---`
/// becomes `- - -`.
pub open spec fn escape_dashes(s: Seq<char>) -> Seq<char>
    decreases s.len(),
{
    if s.len() == 0 {
        Seq::empty()
    } else if s.len() >= 2 && s[0] == '-' && s[1] == '-' {
        seq!['-', ' '] + escape_dashes(s.skip(1))
    } else {
        seq![s[0]] + escape_dashes(s.skip(1))
    }
}

/// The first line of the comment: `<!-- view-data` and a newline.
pub open spec fn comment_head() -> Seq<char> {
    seq!['<', '!', '-', '-', ' ', 'v', 'i', 'e', 'w', '-', 'd', 'a', 't', 'a', '\n']
}

/// The end of the comment: a newline, `-->` and a newline.
pub open spec fn comment_tail() -> Seq<char> {
    seq!['\n', '-', '-', '>', '\n']
}

/// The whole comment block for `json`.
pub open spec fn comment_block(json: Seq<char>) -> Seq<char> {
    comment_head() + escape_dashes(json) + comment_tail()
}

/// `</body>`.
pub open spec fn body_close() -> Seq<char> {
    seq!['<', '/', 'b', 'o', 'd', 'y', '>']
}

/// A full page with the comment for `json` inserted just before the last
/// `</body>` of `html`, or appended after a newline when there is none.
pub open spec fn page_with_comment(html: Seq<char>, json: Seq<char>) -> Seq<char> {
    match last_occurrence(html, body_close()) {
        Some(pos) => html.take(pos) + comment_block(json) + html.skip(pos),
        None => html + seq!['\n'] + comment_block(json),
    }
}

/// A fragment with the comment for `json` at its head.
pub open spec fn fragment_with_comment(html: Seq<char>, json: Seq<char>) -> Seq<char> {
    comment_block(json) + html
}

/// Puts a space between every two adjacent dashes of `json`.
pub fn escape_double_dashes(json: &str) -> (r: String)
    ensures
        r@ == escape_dashes(json@),
{
    let v = chars_of(json);
    let mut out = String::new();
    let mut i: usize = 0;
    proof {
        assert(v@.skip(0) =~= v@);
    }
    while i < v.len()
        invariant
            i <= v.len(),
            out@ + escape_dashes(v@.skip(i as int)) == escape_dashes(v@),
        decreases v.len() - i,
    {
        let ghost rest = v@.skip(i as int);
        if i + 1 < v.len() && v[i] == '-' && v[i + 1] == '-' {
            out.push('-');
            out.push(' ');
            proof {
                assert(rest.skip(1) =~= v@.skip(i + 1));
            }
            i = i + 1;
        } else {
            out.push(v[i]);
            proof {
                assert(rest.skip(1) =~= v@.skip(i + 1));
            }
            i = i + 1;
        }
    }
    proof {
        assert(v@.skip(i as int) =~= Seq::<char>::empty());
    }
    out
}

/// Builds the `<!-- view-data ... -->` block (with a trailing newline) that
/// carries `json`, with a space put between adjacent dashes so that the JSON cannot close
/// the comment early.
pub fn view_comment_block(json: &str) -> (r: String)
    ensures
        r@ == comment_block(json@),
{
    let safe = escape_double_dashes(json);
    let mut out = String::new();
    out.append("<!-- view-data\n");
    out.append(safe.as_str());
    out.append("\n-->\n");
    proof {
        reveal_strlit("<!-- view-data\n");
        reveal_strlit("\n-->\n");
        assert(out@ =~= comment_block(json@));
    }
    out
}

/// Inserts the view-data comment for `json` just before the last `</body>`
/// of a full page, or appends it after a newline when the page has none.
pub fn insert_view_comment(html: String, json: &str) -> (r: String)
    ensures
        r@ == page_with_comment(html@, json@),
{
    let block = view_comment_block(json);
    let v = chars_of(html.as_str());
    let pat = chars_of("</body>");
    proof {
        reveal_strlit("</body>");
        assert(pat@ =~= body_close());
    }
    match rfind(&v, &pat) {
        Some(pos) => {
            proof {
                lemma_last_occurrence(v@, pat@);
            }
            let mut out = String::new();
            push_range(&mut out, &v, 0, pos);
            out.append(block.as_str());
            push_range(&mut out, &v, pos, v.len());
            proof {
                assert(v@.subrange(0, pos as int) =~= html@.take(pos as int));
                assert(v@.subrange(pos as int, v@.len() as int) =~= html@.skip(pos as int));
            }
            out
        },
        None => {
            let mut out = html;
            out.push('\n');
            out.append(block.as_str());
            out
        },
    }
}

/// Puts the view-data comment for `json` at the head of a fragment.
pub fn prepend_view_comment(html: String, json: &str) -> (r: String)
    ensures
        r@ == fragment_with_comment(html@, json@),
{
    let mut out = view_comment_block(json);
    out.append(html.as_str());
    out
}

/// The opening of the error page, up to the stage label.
pub open spec fn error_page_head() -> Seq<char> {
    "<pre style=\"color:#b91c1c;white-space:pre-wrap;padding:1rem;border:1px solid #b91c1c;\">template error ["@
}

/// Between the stage label and the message.
pub open spec fn error_page_mid() -> Seq<char> {
    "]\n"@
}

/// The closing of the error page.
pub open spec fn error_page_tail() -> Seq<char> {
    "</pre>"@
}

/// The error page for a failure at `stage` with message `msg`.
pub open spec fn error_page(stage: Seq<char>, msg: Seq<char>) -> Seq<char> {
    error_page_head() + stage + error_page_mid() + msg + error_page_tail()
}

/// A red `<pre>` block that shows which stage of rendering failed and why,
/// shown in place of the page so that a broken template is visible.
pub fn render_error(stage: &str, msg: &str) -> (r: String)
    ensures
        r@ == error_page(stage@, msg@),
{
    let mut out = String::new();
    out.append(
        "<pre style=\"color:#b91c1c;white-space:pre-wrap;padding:1rem;border:1px solid #b91c1c;\">template error [",
    );
    out.append(stage);
    out.append("]\n");
    out.append(msg);
    out.append("</pre>");
    proof {
        assert(out@ =~= error_page(stage@, msg@));
    }
    out
}

/// A stage of rendering that failed, with the message of the error.
pub enum RenderFailure {
    /// The template environment could not be (re)loaded.
    AcquireEnv(String),
    /// The named template could not be found or compiled.
    Template(String),
    /// The template failed while rendering.
    Render(String),
}

/// The label of the stage that failed, as shown on the error page.
pub open spec fn stage_label(name: Seq<char>, failure: RenderFailure) -> Seq<char> {
    match failure {
        RenderFailure::AcquireEnv(_) => "acquire env"@,
        RenderFailure::Template(_) => "template '"@ + name + "'"@,
        RenderFailure::Render(_) => "render '"@ + name + "'"@,
    }
}

/// The message carried by a failure.
pub open spec fn failure_message(failure: RenderFailure) -> Seq<char> {
    match failure {
        RenderFailure::AcquireEnv(m) => m@,
        RenderFailure::Template(m) => m@,
        RenderFailure::Render(m) => m@,
    }
}

/// The label of a failure to encode the view of template `name` as JSON.
pub open spec fn encode_label(name: Seq<char>) -> Seq<char> {
    "encode view JSON for '"@ + name + "'"@
}

/// `pre`, `name` and `post` put together.
fn quoted(pre: &str, name: &str, post: &str) -> (r: String)
    ensures
        r@ == pre@ + name@ + post@,
{
    let mut out = String::new();
    out.append(pre);
    out.append(name);
    out.append(post);
    proof {
        assert(out@ =~= pre@ + name@ + post@);
    }
    out
}

/// The error page shown when rendering template `name` failed.
pub fn failure_page(name: &str, failure: &RenderFailure) -> (r: String)
    ensures
        r@ == error_page(stage_label(name@, *failure), failure_message(*failure)),
{
    match failure {
        RenderFailure::AcquireEnv(m) => render_error("acquire env", m.as_str()),
        RenderFailure::Template(m) => {
            let stage = quoted("template '", name, "'");
            render_error(stage.as_str(), m.as_str())
        },
        RenderFailure::Render(m) => {
            let stage = quoted("render '", name, "'");
            render_error(stage.as_str(), m.as_str())
        },
    }
}

/// What a plain render of template `name` shows: the rendered HTML, or the
/// error page of the stage that failed.
pub open spec fn plain_outcome(name: Seq<char>, rendered: Result<String, RenderFailure>) -> Seq<
    char,
> {
    match rendered {
        Ok(html) => html@,
        Err(f) => error_page(stage_label(name, f), failure_message(f)),
    }
}

/// What rendering a view through template `name` shows: the error page of
/// the first stage that failed (rendering, then encoding the view as JSON),
/// or else the rendered HTML with the view-data comment, placed before the
/// last `</body>` for a full page or at the head for a fragment.
pub open spec fn view_outcome(
    name: Seq<char>,
    rendered: Result<String, RenderFailure>,
    json: Result<String, String>,
    fragment: bool,
) -> Seq<char> {
    match rendered {
        Err(f) => error_page(stage_label(name, f), failure_message(f)),
        Ok(html) => match json {
            Err(m) => error_page(encode_label(name), m@),
            Ok(j) => if fragment {
                fragment_with_comment(html@, j@)
            } else {
                page_with_comment(html@, j@)
            },
        },
    }
}

/// Finishes a plain render of template `name` from what the template
/// engine gave back.
pub fn finish_render(name: &str, rendered: Result<String, RenderFailure>) -> (r: String)
    ensures
        r@ == plain_outcome(name@, rendered),
{
    match rendered {
        Ok(html) => html,
        Err(f) => failure_page(name, &f),
    }
}

fn finish_view(
    name: &str,
    rendered: Result<String, RenderFailure>,
    json: Result<String, String>,
    fragment: bool,
) -> (r: String)
    ensures
        r@ == view_outcome(name@, rendered, json, fragment),
{
    match rendered {
        Err(f) => failure_page(name, &f),
        Ok(html) => match json {
            Err(m) => {
                let stage = quoted("encode view JSON for '", name, "'");
                render_error(stage.as_str(), m.as_str())
            },
            Ok(j) => if fragment {
                prepend_view_comment(html, j.as_str())
            } else {
                insert_view_comment(html, j.as_str())
            },
        },
    }
}

/// Finishes a full page: the rendered HTML of template `name` with the
/// view's JSON embedded before its last `</body>`, or the error page of the
/// stage that failed.
pub fn finish_view_page(
    name: &str,
    rendered: Result<String, RenderFailure>,
    json: Result<String, String>,
) -> (r: String)
    ensures
        r@ == view_outcome(name@, rendered, json, false),
{
    finish_view(name, rendered, json, false)
}

/// Finishes a fragment: the view's JSON comment followed by the rendered
/// HTML of template `name`, or the error page of the stage that failed.
pub fn finish_view_fragment(
    name: &str,
    rendered: Result<String, RenderFailure>,
    json: Result<String, String>,
) -> (r: String)
    ensures
        r@ == view_outcome(name@, rendered, json, true),
{
    finish_view(name, rendered, json, true)
}

/// `s` has two dashes in a row at position `i`.
pub open spec fn dashes_at(s: Seq<char>, i: int) -> bool {
    0 <= i && i + 1 < s.len() && s[i] == '-' && s[i + 1] == '-'
}

/// `-->`, the end of an HTML comment.
pub open spec fn comment_end() -> Seq<char> {
    seq!['-', '-', '>']
}

/// `--!>`, which HTML also takes as the end of a comment.
pub open spec fn comment_bang_end() -> Seq<char> {
    seq!['-', '-', '!', '>']
}

proof fn lemma_escape_first(s: Seq<char>)
    requires
        s.len() > 0,
    ensures
        escape_dashes(s).len() > 0,
        escape_dashes(s)[0] == s[0],
{
}

/// No two dashes are adjacent in escaped text.
pub proof fn law_escape_leaves_no_double_dash(s: Seq<char>)
    ensures
        forall|i: int| !#[trigger] dashes_at(escape_dashes(s), i),
    decreases s.len(),
{
    if s.len() > 0 {
        let rest = s.skip(1);
        law_escape_leaves_no_double_dash(rest);
        let e = escape_dashes(rest);
        if rest.len() > 0 {
            lemma_escape_first(rest);
        }
        let whole = escape_dashes(s);
        if s.len() >= 2 && s[0] == '-' && s[1] == '-' {
            assert(whole == seq!['-', ' '] + e);
            assert forall|i: int| !#[trigger] dashes_at(whole, i) by {
                if dashes_at(whole, i) {
                    if i >= 2 {
                        assert(whole[i] == e[i - 2]);
                        assert(whole[i + 1] == e[i - 1]);
                        assert(dashes_at(e, i - 2));
                    } else {
                        assert(whole[1] == ' ');
                    }
                }
            }
        } else {
            assert(whole == seq![s[0]] + e);
            assert forall|i: int| !#[trigger] dashes_at(whole, i) by {
                if dashes_at(whole, i) {
                    if i >= 1 {
                        assert(whole[i] == e[i - 1]);
                        assert(whole[i + 1] == e[i]);
                        assert(dashes_at(e, i - 1));
                    } else {
                        assert(whole[1] == e[0]);
                    }
                }
            }
        }
    }
}

/// In a comment block, two dashes in a row stand only in the opening
/// `<!--` and in the closing `-->`.
proof fn lemma_block_dashes(json: Seq<char>)
    ensures
        forall|i: int|
            #[trigger] dashes_at(comment_block(json), i) ==> i == 2 || i
                == comment_block(json).len() - 4,
{
    let e = escape_dashes(json);
    let b = comment_block(json);
    let h = comment_head();
    let t = comment_tail();
    law_escape_leaves_no_double_dash(json);
    assert(b =~= h + e + t);
    assert forall|i: int| #[trigger] dashes_at(b, i) implies i == 2 || i == b.len() - 4 by {
        if i < 15 {
            assert(b[i] == h[i]);
            if i + 1 < 15 {
                assert(b[i + 1] == h[i + 1]);
            } else {
                assert(b[i + 1] == if e.len() > 0 { e[0] } else { t[0] });
                if e.len() > 0 {
                    assert(b[i] == h[14]);
                }
            }
        } else if i + 1 < 15 + e.len() {
            assert(b[i] == e[i - 15] && b[i + 1] == e[i - 14]);
            assert(!dashes_at(e, i - 15));
        } else if i + 1 == 15 + e.len() {
            assert(b[i + 1] == t[0]);
        } else {
            let k = i - 15 - e.len();
            assert(b[i] == t[k]);
            assert(b[i + 1] == t[k + 1]);
        }
    }
}

/// The view-data comment cannot be closed early, whatever the JSON: the
/// only `-->` in the block is the one that ends it, and no `--!>` occurs.
pub proof fn law_comment_ends_only_at_its_end(json: Seq<char>)
    ensures
        occurs_at(comment_block(json), comment_end(), comment_block(json).len() - 4),
        forall|i: int|
            #[trigger] occurs_at(comment_block(json), comment_end(), i) ==> i
                == comment_block(json).len() - 4,
        forall|i: int| !#[trigger] occurs_at(comment_block(json), comment_bang_end(), i),
{
    let b = comment_block(json);
    let h = comment_head();
    let e = escape_dashes(json);
    let t = comment_tail();
    assert(b =~= h + e + t);
    lemma_block_dashes(json);
    let n = b.len() - 4;
    assert(b.subrange(n, n + 3) =~= comment_end());
    assert forall|i: int| #[trigger] occurs_at(b, comment_end(), i) implies i == n by {
        assert(b.subrange(i, i + 3)[0] == b[i]);
        assert(b.subrange(i, i + 3)[1] == b[i + 1]);
        assert(b.subrange(i, i + 3)[2] == b[i + 2]);
        assert(dashes_at(b, i));
        if i == 2 {
            assert(b[4] == h[4]);
        }
    }
    assert forall|i: int| !#[trigger] occurs_at(b, comment_bang_end(), i) by {
        if occurs_at(b, comment_bang_end(), i) {
            assert(b.subrange(i, i + 4)[0] == b[i]);
            assert(b.subrange(i, i + 4)[1] == b[i + 1]);
            assert(b.subrange(i, i + 4)[2] == b[i + 2]);
            assert(dashes_at(b, i));
            if i == 2 {
                assert(b[4] == h[4]);
            } else {
                assert(b[n + 2] == t[3]);
            }
        }
    }
}

/// The number of places in `s` where a dash is followed by a dash.
pub open spec fn dash_pairs(s: Seq<char>) -> nat
    decreases s.len(),
{
    if s.len() == 0 {
        0
    } else {
        dash_pairs(s.skip(1)) + if s.len() >= 2 && s[0] == '-' && s[1] == '-' {
            1nat
        } else {
            0nat
        }
    }
}

/// Escaping only adds spaces, one for each place where two dashes meet:
/// leaving the spaces out gives the JSON's characters back in order.
pub proof fn law_escape_only_adds_spaces(s: Seq<char>)
    ensures
        escape_dashes(s).filter(|c: char| c != ' ') == s.filter(|c: char| c != ' '),
        escape_dashes(s).len() == s.len() + dash_pairs(s),
    decreases s.len(),
{
    let p = |c: char| c != ' ';
    if s.len() > 0 {
        let rest = s.skip(1);
        law_escape_only_adds_spaces(rest);
        let e = escape_dashes(rest);
        assert(s =~= seq![s[0]] + rest);
        rest.lemma_filter_prepend(s[0], p);
        if s.len() >= 2 && s[0] == '-' && s[1] == '-' {
            assert(seq!['-', ' '] + e =~= seq!['-'] + (seq![' '] + e));
            e.lemma_filter_prepend(' ', p);
            (seq![' '] + e).lemma_filter_prepend('-', p);
            assert((seq![' '] + e).filter(p) =~= e.filter(p));
        } else {
            e.lemma_filter_prepend(s[0], p);
        }
    } else {
        assert(escape_dashes(s) =~= s);
    }
}

/// A page without `</body>` keeps all of its HTML, then a newline, then the
/// comment; a fragment is the comment followed by all of its HTML.
pub proof fn law_comment_placement_without_body_close(html: Seq<char>, json: Seq<char>)
    ensures
        last_occurrence(html, body_close()) is None ==> {
            let page = page_with_comment(html, json);
            &&& page.take(html.len() as int) == html
            &&& page[html.len() as int] == '\n'
            &&& page.skip(html.len() as int + 1) == comment_block(json)
        },
        fragment_with_comment(html, json).take(comment_block(json).len() as int) == comment_block(
            json,
        ),
        fragment_with_comment(html, json).skip(comment_block(json).len() as int) == html,
{
    let page = page_with_comment(html, json);
    if last_occurrence(html, body_close()) is None {
        assert(page.take(html.len() as int) =~= html);
        assert(page.skip(html.len() as int + 1) =~= comment_block(json));
    }
    let f = fragment_with_comment(html, json);
    assert(f.take(comment_block(json).len() as int) =~= comment_block(json));
    assert(f.skip(comment_block(json).len() as int) =~= html);
}

/// JSON without `--` is embedded verbatim.
pub proof fn law_escape_keeps_plain_json(json: Seq<char>)
    requires
        forall|i: int| !#[trigger] dashes_at(json, i),
    ensures
        escape_dashes(json) == json,
    decreases json.len(),
{
    if json.len() > 0 {
        let rest = json.skip(1);
        assert forall|i: int| !#[trigger] dashes_at(rest, i) by {
            assert(!dashes_at(json, i + 1));
        }
        law_escape_keeps_plain_json(rest);
        assert(!dashes_at(json, 0));
        assert(json =~= seq![json[0]] + rest);
    }
}

/// On a full page that has a `</body>`, the comment starts exactly where the
/// last `</body>` of the rendered HTML was, that `</body>` follows right
/// after the comment, and removing the comment gives the rendered HTML back.
pub proof fn law_comment_sits_before_last_body_close(html: Seq<char>, json: Seq<char>)
    requires
        last_occurrence(html, body_close()) is Some,
    ensures
        ({
            let pos = last_occurrence(html, body_close())->0;
            let page = page_with_comment(html, json);
            let n = comment_block(json).len();
            &&& page.subrange(pos, pos + n) == comment_block(json)
            &&& occurs_at(page, body_close(), pos + n)
            &&& page.take(pos) + page.skip(pos + n) == html
            &&& page.take(pos) == html.take(pos)
        }),
{
    lemma_last_occurrence(html, body_close());
    let pos = last_occurrence(html, body_close())->0;
    let page = page_with_comment(html, json);
    let blk = comment_block(json);
    let n = blk.len();
    assert(page.subrange(pos, pos + n) =~= blk);
    assert(page.subrange(pos + n, pos + n + 7) =~= html.subrange(pos, pos + 7));
    assert(page.take(pos) + page.skip(pos + n) =~= html);
    assert(page.take(pos) =~= html.take(pos));
}

} // verus!
