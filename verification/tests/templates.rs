use eikodan::templates::{lookup_step, Lookup, ReadOutcome};

fn lookup(name: &str, outcomes: Vec<ReadOutcome>) -> Lookup {
    for o in outcomes {
        if let Some(r) = lookup_step(name, o) {
            return r;
        }
    }
    Lookup::NotFound
}

#[test]
fn first_matching_template_root_wins() {
    let shared = lookup("shared.html", vec![ReadOutcome::Found("FIRST".into()), ReadOutcome::Found("SECOND".into())]);
    assert!(matches!(shared, Lookup::Source(ref s) if s == "FIRST"));
    let only = lookup("only.html", vec![ReadOutcome::Missing, ReadOutcome::Found("ONLY".into())]);
    assert!(matches!(only, Lookup::Source(ref s) if s == "ONLY"));
}

#[test]
fn missing_everywhere_is_not_found() {
    assert!(matches!(lookup("x.html", vec![ReadOutcome::Missing, ReadOutcome::Missing]), Lookup::NotFound));
    assert!(matches!(lookup("x.html", vec![]), Lookup::NotFound));
}

#[test]
fn read_error_stops_the_search() {
    let r = lookup("x.html", vec![ReadOutcome::Failed("permission denied".into()), ReadOutcome::Found("late".into())]);
    match r {
        Lookup::Error(m) => assert_eq!(m, "failed to read template 'x.html': permission denied"),
        _ => panic!("expected an error"),
    }
}
