//! The user page view and the greeting of the sample services. One service
//! function produces the view that both the HTML page and the API return.
use vstd::prelude::*;
use vstd::string::*;
use crate::text::{decimal, push_decimal};

verus! {

/// One entry of a user's recent activity.
pub struct Activity {
    pub action: String,
    pub at: String,
}

/// Everything the user page shows.
pub struct UserPageView {
    pub id: u32,
    pub name: String,
    pub email: String,
    pub role: String,
    pub recent_activities: Vec<Activity>,
}

/// `action` and `at` of `a` are `action` and `at`.
pub open spec fn activity_is(a: Activity, action: Seq<char>, at: Seq<char>) -> bool {
    a.action@ == action && a.at@ == at
}

/// The user with id `id`. There is no store behind it: the view is a
/// function of the id alone.
pub fn get_user(id: u32) -> (r: UserPageView)
    ensures
        r.id == id,
        r.name@ == "ユーザー"@ + decimal(id as nat),
        r.email@ == "user"@ + decimal(id as nat) + "@example.com"@,
        r.role@ == "member"@,
        r.recent_activities@.len() == 3,
        activity_is(r.recent_activities@[0], "ログイン"@, "2026-06-13T09:00:00Z"@),
        activity_is(r.recent_activities@[1], "プロフィール更新"@, "2026-06-13T09:05:00Z"@),
        activity_is(r.recent_activities@[2], "記事を投稿"@, "2026-06-13T10:30:00Z"@),
{
    let mut name = String::new();
    name.append("ユーザー");
    push_decimal(&mut name, id as u64);
    let mut email = String::new();
    email.append("user");
    push_decimal(&mut email, id as u64);
    email.append("@example.com");
    let mut recent_activities: Vec<Activity> = Vec::new();
    recent_activities.push(
        Activity {
            action: String::from_str("ログイン"),
            at: String::from_str("2026-06-13T09:00:00Z"),
        },
    );
    recent_activities.push(
        Activity {
            action: String::from_str("プロフィール更新"),
            at: String::from_str("2026-06-13T09:05:00Z"),
        },
    );
    recent_activities.push(
        Activity {
            action: String::from_str("記事を投稿"),
            at: String::from_str("2026-06-13T10:30:00Z"),
        },
    );
    proof {
        assert(name@ =~= "ユーザー"@ + decimal(id as nat));
        assert(email@ =~= "user"@ + decimal(id as nat) + "@example.com"@);
    }
    UserPageView { id, name, email, role: String::from_str("member"), recent_activities }
}

/// The greeting for `name`: `Hello, ` + name + `!`.
pub fn greeting(name: &str) -> (r: String)
    ensures
        r@ == "Hello, "@ + name@ + "!"@,
{
    let mut out = String::new();
    out.append("Hello, ");
    out.append(name);
    out.append("!");
    proof {
        assert(out@ =~= "Hello, "@ + name@ + "!"@);
    }
    out
}

} // verus!
