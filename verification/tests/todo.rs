use eikodan::model::{TitleForm, Todo};
use eikodan::reply::{map_usecase_error, render_reply, server_error};
use eikodan::service::TodoService;
use eikodan::usecase::{TodoUseCase, UseCaseError};
use eikodan::view_data::RenderFailure;

fn titles(todos: &[Todo]) -> Vec<String> {
    todos.iter().map(|t| t.title.clone()).collect()
}

#[test]
fn service_hands_out_ids_from_one() {
    let mut s = TodoService::new();
    let a = s.create("a".to_string());
    let b = s.create("b".to_string());
    assert_eq!(a.id, 1);
    assert_eq!(b.id, 2);
    assert!(!a.done);
    assert_eq!(s.get(2).unwrap().title, "b");
    assert!(s.get(3).is_none());
}

#[test]
fn default_service_starts_at_zero() {
    let mut s = TodoService::default();
    assert_eq!(s.create("first".to_string()).id, 0);
    let mut u = TodoUseCase::default();
    assert_eq!(u.create("x".to_string()).unwrap().id, 0);
}

#[test]
fn list_is_in_id_order() {
    let mut s = TodoService::new();
    s.create("one".to_string());
    s.create("two".to_string());
    s.create("three".to_string());
    assert!(s.delete(2));
    let ids: Vec<u64> = s.list().iter().map(|t| t.id).collect();
    assert_eq!(ids, vec![1, 3]);
    assert_eq!(titles(&s.list()), vec!["one", "three"]);
}

#[test]
fn service_update_toggle_delete() {
    let mut s = TodoService::new();
    s.create("before".to_string());
    let t = s.update_title(1, "after".to_string()).unwrap();
    assert_eq!(t.title, "after");
    assert_eq!(t.id, 1);
    assert!(s.update_title(9, "x".to_string()).is_none());
    assert!(s.toggle(1).unwrap().done);
    assert!(!s.toggle(1).unwrap().done);
    assert!(s.toggle(9).is_none());
    assert!(s.delete(1));
    assert!(!s.delete(1));
    assert!(s.list().is_empty());
}

#[test]
fn created_todo_is_listed_with_trimmed_title() {
    let mut u = TodoUseCase::new(TodoService::new());
    let t = u.create("  integration test \n".to_string()).unwrap();
    assert_eq!(t.title, "integration test");
    assert_eq!(titles(&u.list()), vec!["integration test"]);
}

#[test]
fn created_todo_keeps_inner_spaces() {
    let mut u = TodoUseCase::new(TodoService::new());
    let t = u.create("buy milk".to_string()).unwrap();
    assert_eq!(t.title, "buy milk");
    assert_eq!(t.id, 1);
    assert!(!t.done);
}

#[test]
fn blank_titles_are_refused() {
    let mut u = TodoUseCase::new(TodoService::new());
    assert_eq!(u.create("".to_string()).unwrap_err(), UseCaseError::EmptyTitle);
    assert_eq!(u.create(" \t\u{3000}\u{a0}".to_string()).unwrap_err(), UseCaseError::EmptyTitle);
    assert!(u.list().is_empty());
    let ok = u.create("x".to_string()).unwrap();
    assert_eq!(ok.id, 1, "a refused create uses no id");
}

#[test]
fn update_checks_title_before_existence() {
    let mut u = TodoUseCase::new(TodoService::new());
    assert_eq!(u.update_title(7, "  ".to_string()).unwrap_err(), UseCaseError::EmptyTitle);
    assert_eq!(u.update_title(7, "x".to_string()).unwrap_err(), UseCaseError::NotFound);
    u.create("before".to_string()).unwrap();
    let t = u.update_title(1, " after ".to_string()).unwrap();
    assert_eq!(t.title, "after");
    assert_eq!(u.get(1).unwrap().title, "after");
    assert_eq!(u.update_title(1, " ".to_string()).unwrap_err(), UseCaseError::EmptyTitle);
    assert_eq!(u.get(1).unwrap().title, "after");
}

#[test]
fn toggle_twice_restores_done() {
    let mut u = TodoUseCase::new(TodoService::new());
    u.create("ToggleMe".to_string()).unwrap();
    let on = u.toggle(1).unwrap();
    assert!(on.done);
    assert_eq!(on.title, "ToggleMe");
    assert!(!u.toggle(1).unwrap().done);
    assert_eq!(u.toggle(2).unwrap_err(), UseCaseError::NotFound);
}

#[test]
fn deleted_todo_is_gone() {
    let mut u = TodoUseCase::new(TodoService::new());
    u.create("will be deleted".to_string()).unwrap();
    u.create("stays".to_string()).unwrap();
    assert_eq!(u.delete(1), Ok(()));
    assert_eq!(u.delete(1), Err(UseCaseError::NotFound));
    assert_eq!(u.get(1).unwrap_err(), UseCaseError::NotFound);
    assert_eq!(titles(&u.list()), vec!["stays"]);
}

#[test]
fn ids_are_not_reused_after_delete() {
    let mut u = TodoUseCase::new(TodoService::new());
    u.create("a".to_string()).unwrap();
    u.delete(1).unwrap();
    assert_eq!(u.create("b".to_string()).unwrap().id, 2);
}

#[test]
fn title_form_carries_title() {
    let f = TitleForm { title: "t".to_string() };
    assert_eq!(f.title, "t");
}

#[test]
fn usecase_errors_map_to_replies() {
    let r = map_usecase_error(UseCaseError::EmptyTitle);
    assert_eq!(r.status, 400);
    assert_eq!(r.body, "title is required");
    assert!(!r.html);
    let r = map_usecase_error(UseCaseError::NotFound);
    assert_eq!(r.status, 404);
    assert_eq!(r.body, "");
    let r = server_error("boom".to_string());
    assert_eq!((r.status, r.body.as_str()), (500, "boom"));
}

#[test]
fn render_replies() {
    let ok = render_reply("index.html", Ok("<table></table>".to_string()));
    assert_eq!(ok.status, 200);
    assert!(ok.html);
    assert_eq!(ok.body, "<table></table>");
    let e = render_reply("partials/todo_row.html", Err(RenderFailure::Template("not found".to_string())));
    assert_eq!(e.status, 500);
    assert_eq!(e.body, "get_template(partials/todo_row.html) failed: not found");
    let e = render_reply("x.html", Err(RenderFailure::Render("bad".to_string())));
    assert_eq!(e.body, "render(x.html) failed: bad");
    let e = render_reply("x.html", Err(RenderFailure::AcquireEnv("io".to_string())));
    assert_eq!(e.body, "acquire_env failed: io");
}

#[test]
fn fresh_store_has_ids_left() {
    let s = TodoService::new();
    assert!(s.has_free_id());
    assert!(TodoUseCase::new(s).has_free_id());
}

#[test]
fn store_stays_well_formed_and_ids_run_in_order() {
    let mut u = TodoUseCase::new(TodoService::new());
    u.ensure_well_formed();
    let ids: Vec<u64> = (0..5).map(|i| u.create(format!("t{i}")).unwrap().id).collect();
    assert_eq!(ids, vec![1, 2, 3, 4, 5]);
    u.delete(5).unwrap();
    u.delete(3).unwrap();
    assert_eq!(u.create("again".to_string()).unwrap().id, 6);
    u.ensure_well_formed();
    TodoService::new().ensure_well_formed();
}
