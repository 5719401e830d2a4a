//! What the todo pages answer: a rendered row or page, or the status and
//! text of a refusal or a server error.
use vstd::prelude::*;
use vstd::string::*;
use crate::usecase::UseCaseError;
use crate::view_data::RenderFailure;

verus! {

/// An HTTP answer: its status, its body, and whether the body is HTML.
pub struct Reply {
    pub status: u16,
    pub body: String,
    pub html: bool,
}

/// The answer to a refused use case: `400 title is required` for an empty
/// title, an empty `404` for a missing todo.
pub fn map_usecase_error(e: UseCaseError) -> (r: Reply)
    ensures
        !r.html,
        e == UseCaseError::EmptyTitle ==> r.status == 400 && r.body@ == "title is required"@,
        e == UseCaseError::NotFound ==> r.status == 404 && r.body@ == Seq::<char>::empty(),
{
    match e {
        UseCaseError::EmptyTitle => Reply {
            status: 400,
            body: String::from_str("title is required"),
            html: false,
        },
        UseCaseError::NotFound => Reply { status: 404, body: String::new(), html: false },
    }
}

/// A `500` answer carrying `msg`.
pub fn server_error(msg: String) -> (r: Reply)
    ensures
        r.status == 500,
        r.body@ == msg@,
        !r.html,
{
    Reply { status: 500, body: msg, html: false }
}

/// The text of a `500` answer for a template that could not be rendered.
pub open spec fn render_failure_text(template: Seq<char>, failure: RenderFailure) -> Seq<char> {
    match failure {
        RenderFailure::AcquireEnv(m) => "acquire_env failed: "@ + m@,
        RenderFailure::Template(m) => "get_template("@ + template + ") failed: "@ + m@,
        RenderFailure::Render(m) => "render("@ + template + ") failed: "@ + m@,
    }
}

/// The answer for rendering `template`: the HTML with status `200`, or a
/// `500` that says which stage failed and why.
pub fn render_reply(template: &str, rendered: Result<String, RenderFailure>) -> (r: Reply)
    ensures
        match rendered {
            Ok(page) => r.status == 200 && r.body@ == page@ && r.html,
            Err(f) => r.status == 500 && r.body@ == render_failure_text(template@, f) && !r.html,
        },
{
    match rendered {
        Ok(page) => Reply { status: 200, body: page, html: true },
        Err(f) => {
            let mut msg = String::new();
            match f {
                RenderFailure::AcquireEnv(m) => {
                    msg.append("acquire_env failed: ");
                    msg.append(m.as_str());
                },
                RenderFailure::Template(m) => {
                    msg.append("get_template(");
                    msg.append(template);
                    msg.append(") failed: ");
                    msg.append(m.as_str());
                },
                RenderFailure::Render(m) => {
                    msg.append("render(");
                    msg.append(template);
                    msg.append(") failed: ");
                    msg.append(m.as_str());
                },
            }
            proof {
                assert(msg@ =~= render_failure_text(template@, f));
            }
            server_error(msg)
        },
    }
}

} // verus!
