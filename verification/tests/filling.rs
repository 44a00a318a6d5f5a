use rank2collection::filling::{FillStep, Filling};

fn run(total: usize, statuses: &[u16]) -> (Vec<usize>, FillStep, usize) {
    let mut f = Filling::new(total);
    let mut sent = Vec::new();
    let mut step = f.next();
    let mut answers = statuses.iter();
    while let FillStep::Send(position) = step {
        sent.push(position);
        let status = *answers.next().expect("ran out of answers");
        step = f.on_response(status);
    }
    (sent, step, f.added)
}

#[test]
fn fill_all_accepted() {
    let (sent, step, added) = run(3, &[200, 201, 200]);
    assert_eq!(sent, vec![0, 1, 2]);
    assert_eq!(step, FillStep::Finished(true));
    assert_eq!(added, 3);
}

#[test]
fn fill_stops_at_first_refusal() {
    let (sent, step, added) = run(4, &[200, 404, 200, 200]);
    assert_eq!(sent, vec![0, 1]);
    assert_eq!(step, FillStep::Finished(false));
    assert_eq!(added, 1);
}

#[test]
fn fill_nothing_succeeds_at_once() {
    let (sent, step, added) = run(0, &[]);
    assert!(sent.is_empty());
    assert_eq!(step, FillStep::Finished(true));
    assert_eq!(added, 0);
}

#[test]
fn fill_refused_first() {
    let (sent, step, _) = run(2, &[500]);
    assert_eq!(sent, vec![0]);
    assert_eq!(step, FillStep::Finished(false));
}
